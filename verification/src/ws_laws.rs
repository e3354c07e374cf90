//! How WebSocket frames and messages look on the wire, byte by byte.
use vstd::prelude::*;
use vstd::utf8::*;

use crate::text;
use crate::websocket;
use crate::websocket::Begun;
use crate::websocket::Drained;
use crate::websocket::FrameRead;
use crate::websocket::Message;
use crate::websocket::WsError;

verus! {

/// The number that two bytes hold, the most significant first.
pub open spec fn two_bytes(bytes: Seq<u8>, at: int) -> int {
    bytes[at] * 0x100 + bytes[at + 1]
}

/// The number that eight bytes hold, the most significant first.
pub open spec fn eight_bytes(bytes: Seq<u8>, at: int) -> int {
    two_bytes(bytes, at) * 0x1_0000_0000_0000 + two_bytes(bytes, at + 2) * 0x1_0000_0000
        + two_bytes(bytes, at + 4) * 0x1_0000 + two_bytes(bytes, at + 6)
}

proof fn lemma_two_bytes(bytes: Seq<u8>)
    requires
        bytes.len() == 2,
    ensures
        websocket::big_endian(bytes) == two_bytes(bytes, 0),
{
    reveal_with_fuel(websocket::big_endian, 3);
    assert(bytes.drop_last().drop_last() =~= Seq::empty());
}

proof fn lemma_eight_bytes(bytes: Seq<u8>)
    requires
        bytes.len() == 8,
    ensures
        websocket::big_endian(bytes) == eight_bytes(bytes, 0),
{
    let b7 = bytes.drop_last();
    let b6 = b7.drop_last();
    let b5 = b6.drop_last();
    let b4 = b5.drop_last();
    let b3 = b4.drop_last();
    let b2 = b3.drop_last();
    lemma_two_bytes(b2);
    assert(websocket::big_endian(b3) == websocket::big_endian(b2) * 256 + bytes[2]);
    assert(websocket::big_endian(b4) == websocket::big_endian(b3) * 256 + bytes[3]);
    assert(websocket::big_endian(b5) == websocket::big_endian(b4) * 256 + bytes[4]);
    assert(websocket::big_endian(b6) == websocket::big_endian(b5) * 256 + bytes[5]);
    assert(websocket::big_endian(b7) == websocket::big_endian(b6) * 256 + bytes[6]);
    assert(websocket::big_endian(bytes) == websocket::big_endian(b7) * 256 + bytes[7]);
}

/// A frame of the server: the first byte has the final bit and the opcode; a
/// length below 126 stands in the second byte, one that fits two bytes behind a
/// 126, and any other in eight bytes behind a 127; the payload follows as it is.
pub proof fn law_frame_layout(fin: bool, opcode: u8, payload: Seq<u8>)
    requires
        opcode < 16,
        payload.len() <= u64::MAX,
    ensures
        ({
            let frame = websocket::frame_bytes(fin, opcode, payload);
            let length = payload.len();
            let start = if length < 126 {
                2int
            } else if length <= 65535 {
                4
            } else {
                10
            };
            &&& frame.len() == start + length
            &&& frame[0] == if fin {
                128 + opcode
            } else {
                opcode as int
            }
            &&& length < 126 ==> frame[1] == length
            &&& 126 <= length <= 65535 ==> frame[1] == 126 && two_bytes(frame, 2) == length
            &&& length > 65535 ==> frame[1] == 127 && eight_bytes(frame, 2) == length
            &&& forall|i: int| 0 <= i < length ==> frame[start + i] == #[trigger] payload[i]
        }),
{
    let frame = websocket::frame_bytes(fin, opcode, payload);
    websocket::law_written_frame_is_read_back(fin, opcode, payload, Seq::empty());
    assert(frame + Seq::<u8>::empty() =~= frame);
    let length = payload.len();
    if 126 <= length <= 65535 {
        lemma_width(length, 2);
        assert(frame[1] == 126);
        lemma_two_bytes(frame.subrange(2, 4));
    } else if length > 65535 {
        lemma_width(length, 8);
        assert(frame[1] == 127);
        lemma_eight_bytes(frame.subrange(2, 10));
    }
}

proof fn lemma_width(n: nat, width: nat)
    ensures
        websocket::big_endian_bytes(n, width).len() == width,
    decreases width,
{
    if width > 0 {
        lemma_width(n / 256, (width - 1) as nat);
    }
}

/// Masking adds the four bytes of the key in turn, by exclusive or.
pub proof fn law_mask_bytes(payload: Seq<u8>, mask: Seq<u8>, i: int)
    requires
        0 <= i < payload.len(),
        mask.len() == 4,
    ensures
        websocket::masked(payload, mask).len() == payload.len(),
        i % 4 == 0 ==> websocket::masked(payload, mask)[i] == payload[i] ^ mask[0],
        i % 4 == 1 ==> websocket::masked(payload, mask)[i] == payload[i] ^ mask[1],
        i % 4 == 2 ==> websocket::masked(payload, mask)[i] == payload[i] ^ mask[2],
        i % 4 == 3 ==> websocket::masked(payload, mask)[i] == payload[i] ^ mask[3],
{
}

/// Where the mask of a frame of a client begins.
pub open spec fn mask_at(input: Seq<u8>) -> int {
    if input[1] % 128 == 126 {
        4
    } else if input[1] % 128 == 127 {
        10
    } else {
        2
    }
}

/// The payload length that a frame gives.
pub open spec fn told_length(input: Seq<u8>) -> int {
    if input[1] % 128 == 126 {
        two_bytes(input, 2)
    } else if input[1] % 128 == 127 {
        eight_bytes(input, 2)
    } else {
        (input[1] % 128) as int
    }
}

/// A frame of a client is read as it is laid out: the first byte has the final
/// bit and the opcode, the second the mask bit and the length, or a 126 or 127
/// with the length behind it; then come four bytes of mask, and the payload under
/// it. One without a mask, a control frame of more than 125 bytes, and one of more
/// than 64 mebibytes, is refused; of any other that is not all there more is
/// needed.
pub proof fn law_frame_is_read_as_laid_out(input: Seq<u8>)
    ensures
        input.len() == 0 ==> websocket::frame_in(input) is Nothing,
        input.len() == 1 ==> websocket::frame_in(input) == FrameRead::Failed(
            WsError::UnexpectedEof,
        ),
        input.len() >= 2 ==> ({
            let start = mask_at(input);
            let length = told_length(input);
            let opcode = input[0] % 16;
            let read = websocket::frame_in(input);
            if input[1] < 128 {
                read == FrameRead::Failed(WsError::Unmasked)
            } else if opcode >= 8 && input[1] % 128 > 125 {
                read == FrameRead::Failed(WsError::ControlTooLarge)
            } else if input.len() < start {
                read == FrameRead::Failed(WsError::UnexpectedEof)
            } else if length > 67108864 {
                read == FrameRead::Failed(WsError::PayloadTooLarge)
            } else if input.len() < start + 4 + length {
                read == FrameRead::Failed(WsError::UnexpectedEof)
            } else {
                &&& read matches FrameRead::Frame { fin, opcode: found, payload, used }
                &&& fin == (input[0] >= 128)
                &&& found == opcode
                &&& used == start + 4 + length
                &&& payload.len() == length
                &&& forall|i: int|
                    0 <= i < length ==> #[trigger] payload[i] == input[start + 4 + i] ^ input[start
                        + i % 4]
            }
        }),
{
    if input.len() >= 2 {
        let start = mask_at(input);
        if input.len() >= start {
            if start == 4 {
                lemma_two_bytes(input.subrange(2, 4));
            } else if start == 10 {
                lemma_eight_bytes(input.subrange(2, 10));
            }
        }
    }
}

/// Texts go out under the opcode one as UTF-8, bytes under two and ten as they
/// are, and a close under eight, with the status 1000 in front of the reason.
pub proof fn law_messages_on_the_wire(message: Message)
    ensures
        match message {
            Message::Text(text) => message.opcode() == 1 && message.payload() == encode_utf8(text),
            Message::Binary(bytes) => message.opcode() == 2 && message.payload() == bytes,
            Message::Pong(bytes) => message.opcode() == 10 && message.payload() == bytes,
            Message::Close(reason) => {
                let payload = message.payload();
                &&& message.opcode() == 8
                &&& payload.len() >= 2
                &&& two_bytes(payload, 0) == 1000
                &&& payload.skip(2) == match reason {
                    Some(text) => encode_utf8(text),
                    None => Seq::empty(),
                }
            },
        },
{
    if let Message::Close(reason) = message {
        let payload = message.payload();
        assert(payload.skip(2) =~= match reason {
            Some(text) => encode_utf8(text),
            None => Seq::empty(),
        });
    }
}

/// A text, and bytes, can be had back from what was sent of them; so can the
/// reason of a close, where it is not empty.
pub proof fn law_messages_can_be_had_back(plain: Seq<char>, bytes: Seq<u8>)
    ensures
        websocket::decoded(1, encode_utf8(plain)) == Ok::<Message, WsError>(Message::Text(plain)),
        websocket::decoded(2, bytes) == Ok::<Message, WsError>(Message::Binary(bytes)),
        !valid_utf8(bytes) ==> websocket::decoded(1, bytes) == Err::<Message, WsError>(
            WsError::NotUtf8,
        ),
        plain.len() > 0 ==> websocket::close_reason(websocket::close_payload(Some(plain))) == Some(
            plain,
        ),
        websocket::close_reason(websocket::close_payload(None)) is None,
        bytes.len() <= 2 ==> websocket::close_reason(bytes) is None,
{
    encode_utf8_decode_utf8(plain);
    encode_utf8_valid_utf8(plain);
    let payload = websocket::close_payload(Some(plain));
    assert(payload.skip(2) =~= encode_utf8(plain));
    if plain.len() > 0 && encode_utf8(plain).len() == 0 {
        assert(encode_utf8(plain) =~= encode_utf8(Seq::empty()));
        encode_utf8_decode_utf8(Seq::empty());
    }
}

/// A data frame of a client that is final is a message of its own; one that is
/// not begins one, unless one was begun. A continuation needs one that was begun.
/// A pong is passed over, and an opcode without a meaning is refused.
pub proof fn law_frames_of_a_client(
    fin: bool,
    opcode: u8,
    payload: Seq<u8>,
    mask: Seq<u8>,
    rest: Seq<u8>,
    begun: Begun,
)
    requires
        websocket::sendable(opcode, payload, mask),
    ensures
        ({
            let input = websocket::client_frame(fin, opcode, payload, mask) + rest;
            let read = websocket::drain(input, begun);
            let further = websocket::drain(rest, begun);
            let refused = |error: WsError|
                Drained {
                    input: rest,
                    begun: None,
                    answers: Seq::empty(),
                    outcome: Some(Err(error)),
                };
            &&& opcode == 2 && fin ==> read == (Drained {
                input: rest,
                begun: None,
                answers: Seq::empty(),
                outcome: Some(Ok(Message::Binary(payload))),
            })
            &&& opcode == 1 && fin && valid_utf8(payload) ==> read == (Drained {
                input: rest,
                begun: None,
                answers: Seq::empty(),
                outcome: Some(Ok(Message::Text(decode_utf8(payload)))),
            })
            &&& opcode == 1 && fin && !valid_utf8(payload) ==> read == refused(WsError::NotUtf8)
            &&& (opcode == 1 || opcode == 2) && !fin && begun is None ==> read == websocket::drain(
                rest,
                Some((opcode, payload)),
            )
            &&& (opcode == 1 || opcode == 2) && !fin && begun is Some ==> read == refused(
                WsError::NestedFragments,
            )
            &&& opcode == 0 && begun is None ==> read == refused(WsError::UnexpectedContinuation)
            &&& opcode == 0 && !fin && begun is Some ==> read == websocket::drain(
                rest,
                Some((begun->Some_0.0, begun->Some_0.1 + payload)),
            )
            &&& opcode == 0 && fin && begun is Some && begun->Some_0.0 == 2 ==> read == (Drained {
                input: rest,
                begun: None,
                answers: Seq::empty(),
                outcome: Some(Ok(Message::Binary(begun->Some_0.1 + payload))),
            })
            &&& opcode == 10 ==> read == further
            &&& 3 <= opcode <= 7 || opcode >= 11 ==> read == refused(
                WsError::UnsupportedOpcode(opcode),
            )
        }),
{
    websocket::law_frame_roundtrip(fin, opcode, payload, mask, rest);
    let further = websocket::drain(rest, begun);
    assert(Seq::<u8>::empty() + further.answers =~= further.answers);
    if opcode <= 2 && !fin {
        let next = if opcode == 0 {
            Some((begun->Some_0.0, begun->Some_0.1 + payload))
        } else {
            Some((opcode, payload))
        };
        let more = websocket::drain(rest, next);
        assert(Seq::<u8>::empty() + more.answers =~= more.answers);
    }
}

/// What is said of each error.
pub proof fn law_errors_are_named(error: WsError)
    ensures
        match error {
            WsError::UnexpectedEof => websocket::ws_error_text(error)
                == "failed to fill whole buffer"@,
            WsError::Unmasked => websocket::ws_error_text(error)
                == "received unmasked WebSocket frame from client"@,
            WsError::ControlTooLarge => websocket::ws_error_text(error)
                == "WebSocket control frame with payload larger than 125 bytes"@,
            WsError::PayloadTooLarge => websocket::ws_error_text(error)
                == "WebSocket frame payload too large"@,
            WsError::UnexpectedContinuation => websocket::ws_error_text(error)
                == "unexpected continuation frame"@,
            WsError::NestedFragments => websocket::ws_error_text(error)
                == "nested fragmented messages are not allowed"@,
            WsError::NotUtf8 => websocket::ws_error_text(error)
                == "WebSocket text frame is not UTF-8"@,
            WsError::UnsupportedOpcode(opcode) => websocket::ws_error_text(error)
                == "unsupported WebSocket opcode: "@ + text::decimal(opcode as nat),
        },
{
}

/// A message of no more than a mebibyte goes out in one frame; of a longer one the
/// first mebibyte does, and the rest follows as a continuation.
pub proof fn law_long_messages_are_cut(opcode: u8, payload: Seq<u8>)
    ensures
        payload.len() <= 1048576 ==> websocket::message_bytes(opcode, payload)
            == websocket::frame_bytes(true, opcode, payload),
        payload.len() > 1048576 ==> websocket::message_bytes(opcode, payload)
            == websocket::frame_bytes(false, opcode, payload.take(1048576))
            + websocket::message_bytes(0, payload.skip(1048576)),
{
}

} // verus!
