use cdp_server::handshake::{
    accept_key_of_digest, accept_with_key, header_value, http_response, is_websocket_upgrade,
    parse_http_request, read_http_request, route, websocket_accept_key, HandshakeError, Route,
};
use cdp_server::websocket::{
    apply_mask, decode_data_message, read_frame, write_frame, write_message, WsError, WsMessage,
    WsReceiver,
};

/// Encodes a client frame (masked, as required by RFC 6455) into a buffer.
fn encode_client_frame(fin: bool, opcode: u8, payload: &[u8], mask: [u8; 4]) -> Vec<u8> {
    let mut frame = Vec::new();
    frame.push(if fin { 0x80 } else { 0x00 } | (opcode & 0x0F));
    let length = payload.len();
    if length < 126 {
        frame.push(0x80 | length as u8);
    } else if length <= u16::MAX as usize {
        frame.push(0x80 | 126);
        frame.extend_from_slice(&(length as u16).to_be_bytes());
    } else {
        frame.push(0x80 | 127);
        frame.extend_from_slice(&(length as u64).to_be_bytes());
    }
    frame.extend_from_slice(&mask);
    let mut masked_payload = payload.to_vec();
    apply_mask(&mut masked_payload, &mask);
    frame.extend_from_slice(&masked_payload);
    frame
}

const MASK: [u8; 4] = [0x11, 0x22, 0x33, 0x44];

#[test]
fn test_websocket_accept_key() {
    // The example from RFC 6455, section 1.3.
    assert_eq!(
        websocket_accept_key("dGhlIHNhbXBsZSBub25jZQ=="),
        "s3pPLMBiTxaQ9kYGzzhZRbK+xOo="
    );
}

#[test]
fn test_frame_roundtrip() {
    let mask = [0x01, 0x02, 0x03, 0x04];
    let payload = b"Hello, WebSocket!".to_vec();
    let encoded = encode_client_frame(true, 0x1, &payload, mask);

    let (frame, used) = read_frame(&encoded).unwrap().expect("a frame");
    assert!(frame.fin);
    assert_eq!(frame.opcode, 0x1);
    assert_eq!(frame.payload, payload);
    assert_eq!(used, encoded.len());
}

#[test]
fn test_fragmented_message() {
    let mask = [0xA0, 0xA1, 0xA2, 0xA3];
    let mut encoded = encode_client_frame(false, 0x1, b"first ", mask);
    encoded.extend_from_slice(&encode_client_frame(false, 0x0, b"second ", mask));
    encoded.extend_from_slice(&encode_client_frame(true, 0x0, b"third", mask));

    let mut receiver_bytes = &encoded[..];
    let mut fragments = Vec::new();
    let mut opcode = None;
    let message = loop {
        let (frame, used) = read_frame(receiver_bytes).unwrap().expect("a frame");
        receiver_bytes = &receiver_bytes[used..];
        if frame.opcode == 0x0 {
            fragments.extend_from_slice(&frame.payload);
            if frame.fin {
                break decode_data_message(opcode.unwrap(), fragments).unwrap();
            }
        } else if frame.fin {
            break decode_data_message(frame.opcode, frame.payload).unwrap();
        } else {
            opcode = Some(frame.opcode);
            fragments = frame.payload;
        }
    };
    assert_eq!(message, WsMessage::Text("first second third".to_owned()));

    // The receiver puts the message together by itself.
    let mut receiver = WsReceiver::new(encoded);
    let mut answers = Vec::new();
    assert_eq!(
        receiver.read_message(&mut answers),
        Ok(Some(WsMessage::Text("first second third".to_owned())))
    );
    assert!(answers.is_empty());
}

#[test]
fn test_large_payload_length() {
    let mask = [0xFF, 0xFF, 0xFF, 0xFF];
    let payload = vec![0x42u8; 70_000];
    let encoded = encode_client_frame(true, 0x2, &payload, mask);

    let (frame, _) = read_frame(&encoded).unwrap().expect("a frame");
    assert_eq!(frame.opcode, 0x2);
    assert_eq!(frame.payload.len(), 70_000);
    assert!(frame.payload.iter().all(|byte| *byte == 0x42));
}

#[test]
fn test_write_frame_roundtrip_through_read() {
    // A frame written by the server (unmasked) must be decodable by a
    // masked-aware reader only if we simulate the masking, so instead
    // verify the exact bytes for a small unmasked text frame.
    let mut buffer = Vec::new();
    write_frame(&mut buffer, true, 0x1, b"hi");
    assert_eq!(buffer, vec![0x81, 0x02, b'h', b'i']);
}

#[test]
fn test_http_request_parsing() {
    let request = b"GET /devtools/browser/abc HTTP/1.1\r\n\
                    Host: localhost:9222\r\n\
                    Upgrade: WebSocket\r\n\
                    Connection: keep-alive, Upgrade\r\n\
                    Sec-WebSocket-Key: dGhlIHNhbXBsZSBub25jZQ==\r\n\
                    Sec-WebSocket-Version: 13\r\n\r\n";
    let ((path, headers), used) = read_http_request(&request[..]).unwrap();
    assert_eq!(path, "/devtools/browser/abc");
    assert_eq!(
        header_value(&headers, "sec-websocket-key"),
        Some("dGhlIHNhbXBsZSBub25jZQ==")
    );
    assert!(header_value(&headers, "upgrade")
        .is_some_and(|value| value.eq_ignore_ascii_case("websocket")));
    assert!(header_value(&headers, "connection")
        .is_some_and(|value| value.to_ascii_lowercase().contains("upgrade")));
    assert_eq!(used, request.len());
    assert!(is_websocket_upgrade(&headers));
    assert_eq!(
        route(&headers),
        Ok(Route::WebSocket("dGhlIHNhbXBsZSBub25jZQ==".to_owned()))
    );
}

#[test]
fn test_close_payload() {
    let message = WsMessage::Close(Some("done".to_owned()));
    let payload = message.payload();
    assert_eq!(&payload[..2], &1000u16.to_be_bytes());
    assert_eq!(&payload[2..], b"done");
    assert_eq!(message.opcode(), 0x8);
}

#[test]
fn masking_twice_changes_nothing() {
    let mut payload = b"some bytes".to_vec();
    apply_mask(&mut payload, &MASK);
    assert_eq!(payload[0], b's' ^ 0x11);
    assert_eq!(payload[5], b'b' ^ 0x22);
    apply_mask(&mut payload, &MASK);
    assert_eq!(payload, b"some bytes");
}

#[test]
fn payloads_and_opcodes_of_messages() {
    assert_eq!(WsMessage::Text("hé".to_owned()).payload(), "hé".as_bytes());
    assert_eq!(WsMessage::Binary(vec![1, 2]).payload(), vec![1, 2]);
    assert_eq!(WsMessage::Pong(vec![3]).payload(), vec![3]);
    assert_eq!(WsMessage::Close(None).payload(), vec![0x03, 0xE8]);
    assert_eq!(WsMessage::Text(String::new()).opcode(), 0x1);
    assert_eq!(WsMessage::Binary(Vec::new()).opcode(), 0x2);
    assert_eq!(WsMessage::Pong(Vec::new()).opcode(), 0xA);
}

#[test]
fn no_input_is_no_frame() {
    assert_eq!(read_frame(&[]), Ok(None));
}

#[test]
fn an_input_that_ends_early() {
    let frame = encode_client_frame(true, 0x1, b"abc", MASK);
    for length in 1..frame.len() {
        assert_eq!(read_frame(&frame[..length]), Err(WsError::UnexpectedEof));
    }
    assert_eq!(read_frame(&[0x81, 0xFE, 0x00]), Err(WsError::UnexpectedEof));
}

#[test]
fn frames_that_break_a_rule() {
    assert_eq!(read_frame(&[0x81, 0x02, b'h', b'i']), Err(WsError::Unmasked));
    assert_eq!(read_frame(&[0x89, 0x80 | 126]), Err(WsError::ControlTooLarge));
    let mut large = vec![0x82, 0x80 | 127];
    large.extend_from_slice(&(64u64 * 1024 * 1024 + 1).to_be_bytes());
    assert_eq!(read_frame(&large), Err(WsError::PayloadTooLarge));
    let mut largest = vec![0x82, 0x80 | 127];
    largest.extend_from_slice(&(64u64 * 1024 * 1024).to_be_bytes());
    assert_eq!(read_frame(&largest), Err(WsError::UnexpectedEof));
}

#[test]
fn frame_lengths_at_their_limits() {
    for length in [0usize, 125, 126, 65_535, 65_536] {
        let payload = vec![7u8; length];
        let encoded = encode_client_frame(false, 0x2, &payload, MASK);
        let (frame, used) = read_frame(&encoded).unwrap().unwrap();
        assert!(!frame.fin);
        assert_eq!(frame.payload, payload);
        assert_eq!(used, encoded.len());
    }
    let mut written = Vec::new();
    write_frame(&mut written, false, 0x2, &vec![0u8; 126]);
    assert_eq!(&written[..4], &[0x02, 126, 0, 126]);
    let mut written = Vec::new();
    write_frame(&mut written, true, 0x2, &vec![0u8; 65_536]);
    assert_eq!(&written[..10], &[0x82, 127, 0, 0, 0, 0, 0, 1, 0, 0]);
}

#[test]
fn large_messages_are_sent_in_fragments() {
    let mebibyte = 1024 * 1024;
    let mut written = Vec::new();
    write_message(&mut written, &WsMessage::Binary(vec![5u8; 2 * mebibyte + 3]));
    assert_eq!(written[0], 0x02);
    assert_eq!(written[10 + mebibyte], 0x00);
    assert_eq!(written[20 + 2 * mebibyte], 0x80);
    assert_eq!(written[21 + 2 * mebibyte], 3);
    assert_eq!(written.len(), 10 + 10 + 2 + 2 * mebibyte + 3);
    let mut written = Vec::new();
    write_message(&mut written, &WsMessage::Text("x".repeat(mebibyte)));
    assert_eq!(written[0], 0x81);
    assert_eq!(written.len(), 10 + mebibyte);
}

#[test]
fn pings_are_answered_inside_a_fragmented_message() {
    let mut input = encode_client_frame(false, 0x1, b"a", MASK);
    input.extend(encode_client_frame(true, 0x9, b"ping", MASK));
    input.extend(encode_client_frame(true, 0xA, b"pong", MASK));
    input.extend(encode_client_frame(true, 0x0, b"b", MASK));
    let mut receiver = WsReceiver::new(Vec::new());
    let mut answers = Vec::new();
    // How the input is cut up does not matter.
    for (at, byte) in input.iter().enumerate() {
        receiver.receive(&[*byte]);
        let read = receiver.read_message(&mut answers);
        if at + 1 < input.len() {
            assert_eq!(read, Ok(None));
        } else {
            assert_eq!(read, Ok(Some(WsMessage::Text("ab".to_owned()))));
        }
    }
    assert_eq!(answers, vec![0x8A, 4, b'p', b'i', b'n', b'g']);
    assert_eq!(receiver.end_of_stream(), Ok(()));
}

#[test]
fn closing_is_echoed() {
    let mut payload = vec![0x03, 0xE8];
    payload.extend_from_slice(b"bye");
    let input = encode_client_frame(true, 0x8, &payload, MASK);
    let mut receiver = WsReceiver::new(input);
    let mut answers = vec![9];
    assert_eq!(
        receiver.read_message(&mut answers),
        Ok(Some(WsMessage::Close(Some("bye".to_owned()))))
    );
    assert_eq!(answers, vec![9, 0x88, 5, 0x03, 0xE8, b'b', b'y', b'e']);
    for payload in [vec![], vec![0x03], vec![0x03, 0xE8], vec![0x03, 0xE8, 0xFF]] {
        let mut receiver = WsReceiver::new(encode_client_frame(true, 0x8, &payload, MASK));
        assert_eq!(receiver.read_message(&mut Vec::new()), Ok(Some(WsMessage::Close(None))));
    }
}

#[test]
fn messages_that_break_a_rule() {
    let mut answers = Vec::new();
    let mut read = |input: Vec<u8>| WsReceiver::new(input).read_message(&mut answers);
    assert_eq!(
        read(encode_client_frame(true, 0x0, b"", MASK)),
        Err(WsError::UnexpectedContinuation)
    );
    assert_eq!(
        read(encode_client_frame(false, 0x0, b"", MASK)),
        Err(WsError::UnexpectedContinuation)
    );
    let mut nested = encode_client_frame(false, 0x1, b"a", MASK);
    nested.extend(encode_client_frame(false, 0x2, b"b", MASK));
    assert_eq!(read(nested), Err(WsError::NestedFragments));
    assert_eq!(read(encode_client_frame(true, 0x1, &[0xFF], MASK)), Err(WsError::NotUtf8));
    assert_eq!(
        read(encode_client_frame(true, 0x3, b"", MASK)),
        Err(WsError::UnsupportedOpcode(3))
    );
    assert_eq!(read(vec![0x81, 0x00]), Err(WsError::Unmasked));
    let mut receiver = WsReceiver::new(vec![0x81]);
    assert_eq!(receiver.read_message(&mut Vec::new()), Ok(None));
    assert_eq!(receiver.end_of_stream(), Err(WsError::UnexpectedEof));
}

#[test]
fn errors_are_named() {
    assert_eq!(WsError::Unmasked.message(), "received unmasked WebSocket frame from client");
    assert_eq!(
        WsError::ControlTooLarge.message(),
        "WebSocket control frame with payload larger than 125 bytes"
    );
    assert_eq!(WsError::PayloadTooLarge.message(), "WebSocket frame payload too large");
    assert_eq!(WsError::UnexpectedContinuation.message(), "unexpected continuation frame");
    assert_eq!(
        WsError::NestedFragments.message(),
        "nested fragmented messages are not allowed"
    );
    assert_eq!(WsError::NotUtf8.message(), "WebSocket text frame is not UTF-8");
    assert_eq!(WsError::UnsupportedOpcode(12).message(), "unsupported WebSocket opcode: 12");
    assert_eq!(WsError::UnexpectedEof.message(), "failed to fill whole buffer");
    assert_eq!(
        HandshakeError::UnexpectedEof.message(),
        "connection closed during WebSocket handshake"
    );
    assert_eq!(HandshakeError::TooLarge.message(), "WebSocket handshake request too large");
    assert_eq!(
        HandshakeError::MissingKey.message(),
        "missing Sec-WebSocket-Key in WebSocket handshake"
    );
}

#[test]
fn the_handshake_is_completed() {
    assert_eq!(
        accept_with_key("dGhlIHNhbXBsZSBub25jZQ=="),
        "HTTP/1.1 101 Switching Protocols\r\n\
         Upgrade: websocket\r\n\
         Connection: Upgrade\r\n\
         Sec-WebSocket-Accept: s3pPLMBiTxaQ9kYGzzhZRbK+xOo=\r\n\r\n"
    );
    assert_eq!(accept_key_of_digest(&[0, 1, 2, 3]), "AAECAw==");
    assert_eq!(accept_key_of_digest(&[0xFF, 0xFE]), "//4=");
    assert_eq!(accept_key_of_digest(&[]), "");
}

#[test]
fn requests_end_with_an_empty_line() {
    assert_eq!(read_http_request(b"GET / HTTP/1.1\r\n"), Err(HandshakeError::UnexpectedEof));
    assert_eq!(read_http_request(b""), Err(HandshakeError::UnexpectedEof));
    let ((path, headers), used) = read_http_request(b"GET\t/a  b\nA:1\n\nrest").unwrap();
    assert_eq!(path, "/a");
    assert_eq!(headers, vec![("a".to_owned(), "1".to_owned())]);
    assert_eq!(used, 15);
    let large = vec![b'x'; 16 * 1024 + 1];
    assert_eq!(read_http_request(&large), Err(HandshakeError::TooLarge));
    assert_eq!(read_http_request(&large[1..]), Err(HandshakeError::UnexpectedEof));
    let mut largest = vec![b'x'; 16 * 1024 - 1];
    largest.extend_from_slice(b"\n\n");
    assert_eq!(read_http_request(&largest).unwrap().1, 16 * 1024 + 1);
}

#[test]
fn request_texts_are_parsed() {
    let (path, headers) = parse_http_request("GET /x\r\n  Name : a:b \r\nno colon\r\nE:\r\n\r\n");
    assert_eq!(path, "/x");
    assert_eq!(
        headers,
        vec![
            ("name".to_owned(), "a:b".to_owned()),
            ("e".to_owned(), String::new()),
        ]
    );
    assert_eq!(parse_http_request(""), (String::new(), Vec::new()));
    assert_eq!(parse_http_request("GET"), (String::new(), Vec::new()));
    let ((_, headers), _) = read_http_request(b"GET / \nA: \xFFb\n\n").unwrap();
    assert_eq!(headers, vec![("a".to_owned(), "\u{FFFD}b".to_owned())]);
}

#[test]
fn only_upgrades_open_a_websocket() {
    let field = |name: &str, value: &str| (name.to_owned(), value.to_owned());
    assert_eq!(route(&[]), Ok(Route::Discovery));
    assert_eq!(route(&[field("upgrade", "websocket")]), Ok(Route::Discovery));
    assert_eq!(
        route(&[field("upgrade", "h2c"), field("connection", "upgrade")]),
        Ok(Route::Discovery)
    );
    assert_eq!(
        route(&[field("upgrade", "WebSocket"), field("connection", "a, UPGRADE")]),
        Err(HandshakeError::MissingKey)
    );
    assert_eq!(
        route(&[
            field("sec-websocket-key", "k"),
            field("sec-websocket-key", "l"),
            field("connection", "close"),
            field("connection", "upgrade"),
            field("upgrade", "websocket"),
        ]),
        Ok(Route::WebSocket("k".to_owned()))
    );
}

#[test]
fn responses_say_how_long_they_are() {
    assert_eq!(
        http_response("200 OK", "{\"é\":1}"),
        "HTTP/1.1 200 OK\r\nContent-Type: application/json\r\nContent-Length: 8\r\nConnection: close\r\n\r\n{\"é\":1}"
    );
}
