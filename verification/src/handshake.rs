//! The opening of a connection: the HTTP request of the client, what it asks
//! for, and the answer that completes a WebSocket handshake.
use vstd::prelude::*;
use vstd::utf8::*;

use crate::encoding;
use crate::text;
use crate::websocket::append_bytes;

verus! {

/// The fixed GUID appended to the client key when computing the
/// `Sec-WebSocket-Accept` response header value.
pub const WEBSOCKET_GUID: &'static str = "258EAFA5-E914-47DA-95CA-C5AB0DC85B11";

/// The `Sec-WebSocket-Accept` value for a client key.
pub open spec fn accept_key(client_key: Seq<char>) -> Seq<char> {
    encoding::base64_text(
        encoding::sha1_digest(encode_utf8(client_key) + encode_utf8(WEBSOCKET_GUID@)),
    )
}

/// The value of the `Sec-WebSocket-Accept` header, given the SHA-1 digest of the
/// client key and the GUID.
pub fn accept_key_of_digest(digest: &[u8]) -> (key: String)
    ensures
        key@ == encoding::base64_text(digest@),
{
    encoding::base64(digest)
}

/// Computes the value of the `Sec-WebSocket-Accept` header for a given client
/// `Sec-WebSocket-Key`, as specified by
/// [RFC 6455, section 4.2.2](https://datatracker.ietf.org/doc/html/rfc6455#section-4.2.2).
pub fn websocket_accept_key(client_key: &str) -> (key: String)
    ensures
        key@ == accept_key(client_key@),
{
    let mut message: Vec<u8> = Vec::new();
    append_bytes(&mut message, client_key.as_bytes());
    append_bytes(&mut message, WEBSOCKET_GUID.as_bytes());
    assert(message@ =~= encode_utf8(client_key@) + encode_utf8(WEBSOCKET_GUID@));
    let digest = encoding::sha1(message.as_slice());
    accept_key_of_digest(digest.as_slice())
}

/// The response that completes the opening handshake.
pub open spec fn handshake_response(client_key: Seq<char>) -> Seq<char> {
    "HTTP/1.1 101 Switching Protocols\r\nUpgrade: websocket\r\nConnection: Upgrade\r\nSec-WebSocket-Accept: "@
        + accept_key(client_key) + "\r\n\r\n"@
}

/// The response that completes the WebSocket opening handshake, given the
/// client's `Sec-WebSocket-Key`.
pub fn accept_with_key(key: &str) -> (response: String)
    ensures
        response@ == handshake_response(key@),
{
    let mut response = String::new();
    response.push_str(
        "HTTP/1.1 101 Switching Protocols\r\nUpgrade: websocket\r\nConnection: Upgrade\r\nSec-WebSocket-Accept: ",
    );
    response.push_str(websocket_accept_key(key).as_str());
    response.push_str("\r\n\r\n");
    assert(response@ =~= handshake_response(key@));
    response
}

/// The number of bytes after which a request without an end is given up.
pub const MAX_REQUEST_SIZE: usize = 16 * 1024;

/// Why a request was not read.
#[derive(Clone, Copy, Debug, Eq, PartialEq, Structural)]
pub enum HandshakeError {
    /// The input ends before the request does.
    UnexpectedEof,
    /// The request does not end within [`MAX_REQUEST_SIZE`] bytes.
    TooLarge,
    /// The request for an upgrade has no `Sec-WebSocket-Key`.
    MissingKey,
}

/// What is said of an error.
pub open spec fn handshake_error_text(error: HandshakeError) -> Seq<char> {
    match error {
        HandshakeError::UnexpectedEof => "connection closed during WebSocket handshake"@,
        HandshakeError::TooLarge => "WebSocket handshake request too large"@,
        HandshakeError::MissingKey => "missing Sec-WebSocket-Key in WebSocket handshake"@,
    }
}

impl HandshakeError {
    /// What is said of the error.
    pub fn message(&self) -> (text: &'static str)
        ensures
            text@ == handshake_error_text(*self),
    {
        match self {
            HandshakeError::UnexpectedEof => "connection closed during WebSocket handshake",
            HandshakeError::TooLarge => "WebSocket handshake request too large",
            HandshakeError::MissingKey => "missing Sec-WebSocket-Key in WebSocket handshake",
        }
    }
}

/// The first `n` bytes of the input end with an empty line.
pub open spec fn empty_line_at(input: Seq<u8>, n: int) -> bool {
    ||| n >= 2 && input[n - 2] == 0x0A && input[n - 1] == 0x0A
    ||| n >= 4 && input[n - 4] == 0x0D && input[n - 3] == 0x0A && input[n - 2] == 0x0D && input[n
        - 1] == 0x0A
}

/// No empty line ends within the first `n` bytes.
pub open spec fn unfinished(input: Seq<u8>, n: int) -> bool {
    forall|m: int| 0 < m <= n ==> !empty_line_at(input, m)
}

/// The path of a request.
pub open spec fn request_path(request: Seq<char>) -> Seq<char> {
    let all = text::lines(request);
    if all.len() == 0 {
        Seq::empty()
    } else {
        text::second_word(all[0])
    }
}

/// The header fields that lines give, with lower-cased names; a line without a
/// colon gives none.
pub open spec fn header_fields(lines: Seq<Seq<char>>) -> Seq<(Seq<char>, Seq<char>)>
    decreases lines.len(),
{
    if lines.len() == 0 {
        Seq::empty()
    } else {
        let line = lines.last();
        let front = header_fields(lines.drop_last());
        let colon = text::position(line, ':');
        if colon < line.len() {
            front.push(
                (
                    text::lower(text::trim(text::before(line, ':'))),
                    text::trim(line.skip(colon + 1)),
                ),
            )
        } else {
            front
        }
    }
}

/// The header fields of a request.
pub open spec fn request_headers(request: Seq<char>) -> Seq<(Seq<char>, Seq<char>)> {
    let all = text::lines(request);
    if all.len() == 0 {
        Seq::empty()
    } else {
        header_fields(all.skip(1))
    }
}

/// The texts that a list of pairs holds.
pub open spec fn pairs(list: Seq<(String, String)>) -> Seq<(Seq<char>, Seq<char>)> {
    list.map_values(|pair: (String, String)| (pair.0@, pair.1@))
}

/// Parses the text of an HTTP/1.1 request: its path, and its headers with
/// lower-cased names.
pub fn parse_http_request(request: &str) -> (result: (String, Vec<(String, String)>))
    ensures
        result.0@ == request_path(request@),
        pairs(result.1@) == request_headers(request@),
{
    let lines = text::text_lines(request);
    let path = if lines.len() == 0 {
        String::new()
    } else {
        assert(text::texts(lines@)[0] == lines@[0]@);
        text::text_second_word(lines[0].as_str())
    };
    assert(path@ =~= request_path(request@));
    let mut headers: Vec<(String, String)> = Vec::new();
    let mut i: usize = 1;
    let ghost fields = text::lines(request@).skip(1);
    assert(pairs(headers@) =~= header_fields(fields.take(0)));
    while i < lines.len()
        invariant
            1 <= i,
            i <= lines@.len() || lines@.len() == 0,
            text::texts(lines@) == text::lines(request@),
            fields == text::lines(request@).skip(1),
            lines@.len() > 0 ==> pairs(headers@) == header_fields(fields.take(i - 1)),
            lines@.len() == 0 ==> headers@.len() == 0,
        decreases lines@.len() - i,
    {
        assert(fields.take(i as int).drop_last() =~= fields.take(i - 1));
        assert(fields[i - 1] == text::texts(lines@)[i as int]);
        let ghost done = pairs(headers@);
        if let Some((name, value)) = text::split_at_colon(lines[i].as_str()) {
            let name = text::trimmed(name.as_str());
            let value = text::trimmed(value.as_str());
            let field = (text::ascii_lowercase(name.as_str()), value);
            headers.push(field);
            assert(pairs(headers@) =~= done.push((field.0@, field.1@)));
        }
        i += 1;
    }
    proof {
        assert(text::texts(lines@).len() == lines@.len());
        if lines@.len() > 0 {
            assert(fields.take(i - 1) =~= fields);
        } else {
            assert(pairs(headers@) =~= Seq::empty());
        }
    }
    (path, headers)
}

/// Parses an HTTP/1.1 request (headers only, no body) from the beginning of
/// `input`. This is used to read the WebSocket opening handshake. Returns the
/// request path and the request headers with lower-cased names, and the number
/// of bytes that the request takes up.
pub fn read_http_request(input: &[u8]) -> (result: Result<
    ((String, Vec<(String, String)>), usize),
    HandshakeError,
>)
    ensures
        match result {
            Ok(((path, headers), used)) => {
                let request = text::decoded_text(input@.take(used as int));
                &&& used <= input@.len()
                &&& used <= MAX_REQUEST_SIZE + 1
                &&& empty_line_at(input@, used as int)
                &&& unfinished(input@, used - 1)
                &&& path@ == request_path(request)
                &&& pairs(headers@) == request_headers(request)
            },
            Err(HandshakeError::TooLarge) => input@.len() > MAX_REQUEST_SIZE && unfinished(
                input@,
                MAX_REQUEST_SIZE + 1,
            ),
            Err(HandshakeError::UnexpectedEof) => input@.len() <= MAX_REQUEST_SIZE && unfinished(
                input@,
                input@.len() as int,
            ),
            Err(HandshakeError::MissingKey) => false,
        },
{
    let mut used: usize = 0;
    loop
        invariant_except_break
            used <= input@.len(),
            used <= MAX_REQUEST_SIZE,
            unfinished(input@, used as int),
        ensures
            0 < used <= input@.len(),
            used <= MAX_REQUEST_SIZE + 1,
            unfinished(input@, used - 1),
            empty_line_at(input@, used as int),
        decreases input@.len() - used,
    {
        if used == input.len() {
            return Err(HandshakeError::UnexpectedEof);
        }
        used += 1;
        // The end of the headers is signaled by an empty line.
        if used >= 2 && input[used - 2] == 0x0A && input[used - 1] == 0x0A {
            break;
        }
        if used >= 4 && input[used - 4] == 0x0D && input[used - 3] == 0x0A && input[used - 2] == 0x0D
            && input[used - 1] == 0x0A {
            break;
        }
        if used > MAX_REQUEST_SIZE {
            return Err(HandshakeError::TooLarge);
        }
    }
    let request = text::decode_text(&input[0..used]);
    assert(input@.subrange(0, used as int) =~= input@.take(used as int));
    Ok((parse_http_request(request.as_str()), used))
}

/// More input changes nothing of a request that was read, or refused.
pub proof fn law_request_is_decided_by_its_beginning(input: Seq<u8>, more: Seq<u8>, n: int)
    requires
        0 <= n <= input.len(),
    ensures
        empty_line_at(input + more, n) == empty_line_at(input, n),
        unfinished(input + more, n) == unfinished(input, n),
        (input + more).take(n) == input.take(n),
{
    let longer = input + more;
    if unfinished(input, n) {
        assert forall|m: int| 0 < m <= n implies !empty_line_at(longer, m) by {
            assert(!empty_line_at(input, m));
        }
    }
    if unfinished(longer, n) {
        assert forall|m: int| 0 < m <= n implies !empty_line_at(input, m) by {
            assert(!empty_line_at(longer, m));
        }
    }
    assert((input + more).take(n) =~= input.take(n));
}

/// A header field has the name `name`.
pub open spec fn named(field: (Seq<char>, Seq<char>), name: Seq<char>) -> bool {
    field.0 == name
}

/// The value of the first field of the name.
pub open spec fn first_value(fields: Seq<(Seq<char>, Seq<char>)>, name: Seq<char>) -> Option<
    Seq<char>,
>
    decreases fields.len(),
{
    if fields.len() == 0 {
        None
    } else if named(fields[0], name) {
        Some(fields[0].1)
    } else {
        first_value(fields.skip(1), name)
    }
}

/// The value of the first header of the name.
pub fn header_value<'a>(headers: &'a [(String, String)], name: &str) -> (value: Option<&'a str>)
    ensures
        match value {
            Some(v) => first_value(pairs(headers@), name@) == Some(v@),
            None => first_value(pairs(headers@), name@) is None,
        },
{
    let mut i: usize = 0;
    assert(pairs(headers@).skip(0) =~= pairs(headers@));
    while i < headers.len()
        invariant
            i <= headers@.len(),
            first_value(pairs(headers@), name@) == first_value(pairs(headers@).skip(i as int), name@),
        decreases headers@.len() - i,
    {
        let ghost rest = pairs(headers@).skip(i as int);
        assert(rest[0] == (headers@[i as int].0@, headers@[i as int].1@));
        if text::same_text(headers[i].0.as_str(), name) {
            return Some(headers[i].1.as_str());
        }
        assert(rest.skip(1) =~= pairs(headers@).skip(i + 1));
        i += 1;
    }
    None
}

/// A header asks to leave HTTP for a WebSocket.
pub open spec fn asks_for_websocket(field: (Seq<char>, Seq<char>)) -> bool {
    named(field, "upgrade"@) && text::lower(field.1) == "websocket"@
}

/// A header asks to upgrade the connection.
pub open spec fn asks_for_upgrade(field: (Seq<char>, Seq<char>)) -> bool {
    named(field, "connection"@) && text::contains_text(text::lower(field.1), "upgrade"@)
}

/// The request asks for a WebSocket.
pub open spec fn is_upgrade(fields: Seq<(Seq<char>, Seq<char>)>) -> bool {
    &&& exists|i: int| 0 <= i < fields.len() && #[trigger] asks_for_websocket(fields[i])
    &&& exists|i: int| 0 <= i < fields.len() && #[trigger] asks_for_upgrade(fields[i])
}

/// Whether the headers ask for a WebSocket.
pub fn is_websocket_upgrade(headers: &[(String, String)]) -> (result: bool)
    ensures
        result == is_upgrade(pairs(headers@)),
{
    let ghost fields = pairs(headers@);
    let mut websocket = false;
    let mut upgrade = false;
    let mut i: usize = 0;
    while i < headers.len()
        invariant
            fields == pairs(headers@),
            i <= headers@.len(),
            websocket == exists|j: int| 0 <= j < i && #[trigger] asks_for_websocket(fields[j]),
            upgrade == exists|j: int| 0 <= j < i && #[trigger] asks_for_upgrade(fields[j]),
        decreases headers@.len() - i,
    {
        let name = headers[i].0.as_str();
        let value = text::ascii_lowercase(headers[i].1.as_str());
        assert(fields[i as int] == (headers@[i as int].0@, headers@[i as int].1@));
        if text::same_text(name, "upgrade") && text::same_text(value.as_str(), "websocket") {
            assert(asks_for_websocket(fields[i as int]));
            websocket = true;
        }
        if text::same_text(name, "connection") && text::has_text(value.as_str(), "upgrade") {
            assert(asks_for_upgrade(fields[i as int]));
            upgrade = true;
        }
        i += 1;
    }
    assert(fields.len() == headers@.len());
    websocket && upgrade
}

/// What a request asks for.
#[derive(Clone, Debug, Eq, PartialEq)]
pub enum Route {
    /// A WebSocket, opened with the client's key.
    WebSocket(String),
    /// One of the HTTP discovery endpoints.
    Discovery,
}

/// The key of the WebSocket that a request asks for, nothing where it asks for an
/// endpoint, and an error where it asks for a WebSocket without a key.
pub open spec fn route_of(fields: Seq<(Seq<char>, Seq<char>)>) -> Result<
    Option<Seq<char>>,
    HandshakeError,
> {
    match first_value(fields, "sec-websocket-key"@) {
        _ if !is_upgrade(fields) => Ok(None),
        Some(key) => Ok(Some(key)),
        None => Err(HandshakeError::MissingKey),
    }
}

/// Decides between the HTTP discovery endpoints and a WebSocket upgrade, which
/// needs a key.
pub fn route(headers: &[(String, String)]) -> (result: Result<Route, HandshakeError>)
    ensures
        match result {
            Ok(Route::Discovery) => !is_upgrade(pairs(headers@)),
            Ok(Route::WebSocket(key)) => {
                &&& is_upgrade(pairs(headers@))
                &&& first_value(pairs(headers@), "sec-websocket-key"@) == Some(key@)
            },
            Err(error) => {
                &&& error == HandshakeError::MissingKey
                &&& is_upgrade(pairs(headers@))
                &&& first_value(pairs(headers@), "sec-websocket-key"@) is None
            },
        },
        route_of(pairs(headers@)) == match result {
            Ok(Route::WebSocket(key)) => Ok(Some(key@)),
            Ok(Route::Discovery) => Ok(None),
            Err(error) => Err(error),
        },
{
    if !is_websocket_upgrade(headers) {
        return Ok(Route::Discovery);
    }
    match header_value(headers, "sec-websocket-key") {
        Some(key) => Ok(Route::WebSocket(key.to_string())),
        None => Err(HandshakeError::MissingKey),
    }
}

/// An HTTP response with a JSON body.
pub open spec fn json_response(status: Seq<char>, body: Seq<char>) -> Seq<char> {
    "HTTP/1.1 "@ + status + "\r\nContent-Type: application/json\r\nContent-Length: "@
        + text::decimal(encode_utf8(body).len()) + "\r\nConnection: close\r\n\r\n"@ + body
}

/// Writes an HTTP response with a JSON body, and closes the connection.
pub fn http_response(status: &str, body: &str) -> (response: String)
    ensures
        response@ == json_response(status@, body@),
{
    let mut response = String::new();
    response.push_str("HTTP/1.1 ");
    response.push_str(status);
    response.push_str("\r\nContent-Type: application/json\r\nContent-Length: ");
    response.push_str(text::decimal_text(body.as_bytes().len() as u64).as_str());
    response.push_str("\r\nConnection: close\r\n\r\n");
    response.push_str(body);
    assert(response@ =~= json_response(status@, body@));
    response
}

} // verus!
