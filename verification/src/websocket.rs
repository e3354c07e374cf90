//! A minimal [RFC 6455](https://datatracker.ietf.org/doc/html/rfc6455) WebSocket
//! codec, for the server side: the frames that it writes are never masked, and
//! the frames that it reads have to be.
use vstd::prelude::*;
use vstd::utf8::*;

use crate::text;
use crate::text::utf8_text;

verus! {

/// The largest payload of a frame that is read, in bytes.
pub const MAX_FRAME_PAYLOAD: u64 = 64 * 1024 * 1024;

/// The largest payload of a frame that is written, in bytes. A longer message
/// is sent in fragments of this size.
pub const MAX_FRAGMENT_SIZE: usize = 1024 * 1024;

/// A WebSocket message, limited to the opcodes the server needs.
#[derive(Clone, Debug, Eq, PartialEq)]
pub enum WsMessage {
    /// A UTF-8 text message.
    Text(String),
    /// A binary message.
    Binary(Vec<u8>),
    /// A pong control frame, sent in response to a ping.
    Pong(Vec<u8>),
    /// A close control frame with an optional close reason.
    Close(Option<String>),
}

/// What a [`WsMessage`] holds.
pub enum Message {
    Text(Seq<char>),
    Binary(Seq<u8>),
    Pong(Seq<u8>),
    Close(Option<Seq<char>>),
}

/// Why a frame or a message was not accepted.
#[derive(Clone, Copy, Debug, Eq, PartialEq, Structural)]
pub enum WsError {
    /// The input ends inside a frame.
    UnexpectedEof,
    /// A frame from the client without a mask.
    Unmasked,
    /// A control frame with a payload of more than 125 bytes.
    ControlTooLarge,
    /// A payload of more than [`MAX_FRAME_PAYLOAD`] bytes.
    PayloadTooLarge,
    /// A continuation frame where no message was begun.
    UnexpectedContinuation,
    /// A fragmented message begun inside another.
    NestedFragments,
    /// A text message that is not UTF-8.
    NotUtf8,
    /// An opcode that has no meaning.
    UnsupportedOpcode(u8),
}

/// What is said of an error.
pub open spec fn ws_error_text(error: WsError) -> Seq<char> {
    match error {
        WsError::UnexpectedEof => "failed to fill whole buffer"@,
        WsError::Unmasked => "received unmasked WebSocket frame from client"@,
        WsError::ControlTooLarge => "WebSocket control frame with payload larger than 125 bytes"@,
        WsError::PayloadTooLarge => "WebSocket frame payload too large"@,
        WsError::UnexpectedContinuation => "unexpected continuation frame"@,
        WsError::NestedFragments => "nested fragmented messages are not allowed"@,
        WsError::NotUtf8 => "WebSocket text frame is not UTF-8"@,
        WsError::UnsupportedOpcode(opcode) => "unsupported WebSocket opcode: "@ + text::decimal(
            opcode as nat,
        ),
    }
}

impl WsError {
    /// What is said of the error.
    pub fn message(&self) -> (text: String)
        ensures
            text@ == ws_error_text(*self),
    {
        match self {
            WsError::UnexpectedEof => "failed to fill whole buffer".to_string(),
            WsError::Unmasked => "received unmasked WebSocket frame from client".to_string(),
            WsError::ControlTooLarge => {
                "WebSocket control frame with payload larger than 125 bytes".to_string()
            },
            WsError::PayloadTooLarge => "WebSocket frame payload too large".to_string(),
            WsError::UnexpectedContinuation => "unexpected continuation frame".to_string(),
            WsError::NestedFragments => "nested fragmented messages are not allowed".to_string(),
            WsError::NotUtf8 => "WebSocket text frame is not UTF-8".to_string(),
            WsError::UnsupportedOpcode(opcode) => {
                let mut message = "unsupported WebSocket opcode: ".to_string();
                message.push_str(text::decimal_text(*opcode as u64).as_str());
                message
            },
        }
    }
}

/// The payload of a close message: the status code 1000 and the reason.
pub open spec fn close_payload(reason: Option<Seq<char>>) -> Seq<u8> {
    seq![0x03u8, 0xE8u8] + match reason {
        Some(text) => encode_utf8(text),
        None => Seq::empty(),
    }
}

impl Message {
    /// The RFC 6455 opcode of the message.
    pub open spec fn opcode(self) -> u8 {
        match self {
            Message::Text(_) => 0x1,
            Message::Binary(_) => 0x2,
            Message::Close(_) => 0x8,
            Message::Pong(_) => 0xA,
        }
    }

    /// The payload bytes of the message.
    pub open spec fn payload(self) -> Seq<u8> {
        match self {
            Message::Text(text) => encode_utf8(text),
            Message::Binary(bytes) => bytes,
            Message::Pong(bytes) => bytes,
            Message::Close(reason) => close_payload(reason),
        }
    }
}

impl View for WsMessage {
    type V = Message;

    open spec fn view(&self) -> Message {
        match self {
            WsMessage::Text(text) => Message::Text(text@),
            WsMessage::Binary(bytes) => Message::Binary(bytes@),
            WsMessage::Pong(bytes) => Message::Pong(bytes@),
            WsMessage::Close(Some(reason)) => Message::Close(Some(reason@)),
            WsMessage::Close(None) => Message::Close(None),
        }
    }
}

impl WsMessage {
    /// The RFC 6455 opcode for this message.
    pub fn opcode(&self) -> (opcode: u8)
        ensures
            opcode == self@.opcode(),
    {
        match self {
            WsMessage::Text(_) => 0x1,
            WsMessage::Binary(_) => 0x2,
            WsMessage::Close(_) => 0x8,
            WsMessage::Pong(_) => 0xA,
        }
    }

    /// The payload bytes for this message.
    pub fn payload(&self) -> (payload: Vec<u8>)
        ensures
            payload@ == self@.payload(),
    {
        let mut payload: Vec<u8> = Vec::new();
        match self {
            WsMessage::Text(text) => append_bytes(&mut payload, text.as_str().as_bytes()),
            WsMessage::Binary(bytes) => append_bytes(&mut payload, bytes.as_slice()),
            WsMessage::Pong(bytes) => append_bytes(&mut payload, bytes.as_slice()),
            WsMessage::Close(reason) => {
                // A close frame carries a 2-byte status code followed by an
                // optional UTF-8 reason.
                payload.push(0x03);
                payload.push(0xE8);
                if let Some(reason) = reason {
                    append_bytes(&mut payload, reason.as_str().as_bytes());
                }
            },
        }
        assert(payload@ =~= self@.payload());
        payload
    }
}

/// Appends `bytes` behind what `out` holds.
pub(crate) fn append_bytes(out: &mut Vec<u8>, bytes: &[u8])
    ensures
        final(out)@ == old(out)@ + bytes@,
{
    let ghost before = out@;
    let mut i: usize = 0;
    assert(before + bytes@.take(0) =~= before);
    while i < bytes.len()
        invariant
            i <= bytes@.len(),
            out@ == before + bytes@.take(i as int),
        decreases bytes@.len() - i,
    {
        out.push(bytes[i]);
        i += 1;
        assert(before + bytes@.take(i as int) =~= (before + bytes@.take(i - 1)).push(bytes@[i - 1]));
    }
    assert(bytes@.take(i as int) =~= bytes@);
}

/// The bytes XORed with the four-byte masking key.
pub open spec fn masked(payload: Seq<u8>, mask: Seq<u8>) -> Seq<u8> {
    Seq::new(payload.len(), |i: int| payload[i] ^ mask[i % 4])
}

/// XORs the payload bytes with the four-byte masking key.
pub fn apply_mask(payload: &mut [u8], mask: &[u8; 4])
    ensures
        final(payload)@ == masked(old(payload)@, mask@),
{
    let ghost before = payload@;
    let mut i: usize = 0;
    while i < payload.len()
        invariant
            i <= payload@.len(),
            payload@.len() == before.len(),
            forall|j: int| 0 <= j < i ==> payload@[j] == before[j] ^ mask@[j % 4],
            forall|j: int| i <= j < before.len() ==> payload@[j] == before[j],
        decreases payload@.len() - i,
    {
        payload[i] = payload[i] ^ mask[i % 4];
        i += 1;
    }
    assert(payload@ =~= masked(before, mask@));
}

/// The number that the bytes give, the most significant byte first.
pub open spec fn big_endian(bytes: Seq<u8>) -> nat
    decreases bytes.len(),
{
    if bytes.len() == 0 {
        0
    } else {
        big_endian(bytes.drop_last()) * 256 + bytes.last() as nat
    }
}

/// The last `width` bytes of a number, the most significant byte first.
pub open spec fn big_endian_bytes(n: nat, width: nat) -> Seq<u8>
    decreases width,
{
    if width == 0 {
        Seq::empty()
    } else {
        big_endian_bytes(n / 256, (width - 1) as nat).push((n % 256) as u8)
    }
}

/// How many numbers `width` bytes can give.
pub open spec fn byte_range(width: nat) -> nat
    decreases width,
{
    if width == 0 {
        1
    } else {
        256 * byte_range((width - 1) as nat)
    }
}

proof fn lemma_big_endian_bound(bytes: Seq<u8>)
    ensures
        big_endian(bytes) < byte_range(bytes.len()),
    decreases bytes.len(),
{
    if bytes.len() > 0 {
        lemma_big_endian_bound(bytes.drop_last());
    }
}

pub proof fn lemma_big_endian_bytes(n: nat, width: nat)
    ensures
        big_endian_bytes(n, width).len() == width,
        n < byte_range(width) ==> big_endian(big_endian_bytes(n, width)) == n,
    decreases width,
{
    if width > 0 {
        let rest = (width - 1) as nat;
        lemma_big_endian_bytes(n / 256, rest);
        assert(big_endian_bytes(n, width).drop_last() =~= big_endian_bytes(n / 256, rest));
    }
}

/// Reads a number, the most significant byte first.
fn read_big_endian(bytes: &[u8]) -> (n: u64)
    requires
        bytes@.len() <= 8,
    ensures
        n == big_endian(bytes@),
{
    let mut n: u64 = 0;
    let mut i: usize = 0;
    while i < bytes.len()
        invariant
            bytes@.len() <= 8,
            i <= bytes@.len(),
            n == big_endian(bytes@.take(i as int)),
        decreases bytes@.len() - i,
    {
        proof {
            lemma_big_endian_bound(bytes@.take(i as int));
            reveal_with_fuel(byte_range, 9);
            assert(byte_range(i as nat) <= byte_range(7));
        }
        n = n * 256 + bytes[i] as u64;
        assert(bytes@.take(i + 1).drop_last() =~= bytes@.take(i as int));
        i += 1;
    }
    assert(bytes@.take(i as int) =~= bytes@);
    n
}

/// Appends the last `width` bytes of a number, the most significant byte first.
fn push_big_endian(out: &mut Vec<u8>, n: u64, width: usize)
    ensures
        final(out)@ == old(out)@ + big_endian_bytes(n as nat, width as nat),
    decreases width,
{
    if width > 0 {
        push_big_endian(out, n / 256, width - 1);
        out.push((n % 256) as u8);
    }
    assert(out@ =~= old(out)@ + big_endian_bytes(n as nat, width as nat));
}

/// A single, parsed WebSocket frame.
#[derive(Clone, Debug, Eq, PartialEq)]
pub struct Frame {
    pub fin: bool,
    pub opcode: u8,
    pub payload: Vec<u8>,
}

/// What the beginning of an input is, read as a frame of a client.
pub enum FrameRead {
    /// There is no input.
    Nothing,
    /// No frame: the input ends too early, or breaks a rule.
    Failed(WsError),
    /// A frame that takes up the first `used` bytes.
    Frame { fin: bool, opcode: u8, payload: Seq<u8>, used: int },
}

/// The number of bytes that give the payload length, behind the two first
/// bytes of a frame, if the second one begins with the length `short`.
pub open spec fn length_width(short: int) -> int {
    if short == 126 {
        2
    } else if short == 127 {
        8
    } else {
        0
    }
}

/// Reads the beginning of `input` as a masked frame.
pub open spec fn frame_in(input: Seq<u8>) -> FrameRead {
    let fin = input[0] >= 0x80;
    let opcode = (input[0] % 16) as u8;
    let short = (input[1] % 128) as int;
    let start = 2 + length_width(short);
    let length = if length_width(short) == 0 {
        short
    } else {
        big_endian(input.subrange(2, start)) as int
    };
    if input.len() == 0 {
        FrameRead::Nothing
    } else if input.len() == 1 {
        FrameRead::Failed(WsError::UnexpectedEof)
    } else if input[1] < 0x80 {
        FrameRead::Failed(WsError::Unmasked)
    } else if opcode >= 0x8 && short > 125 {
        FrameRead::Failed(WsError::ControlTooLarge)
    } else if input.len() < start {
        FrameRead::Failed(WsError::UnexpectedEof)
    } else if length > MAX_FRAME_PAYLOAD {
        FrameRead::Failed(WsError::PayloadTooLarge)
    } else if input.len() < start + 4 + length {
        FrameRead::Failed(WsError::UnexpectedEof)
    } else {
        FrameRead::Frame {
            fin,
            opcode,
            payload: masked(
                input.subrange(start + 4, start + 4 + length),
                input.subrange(start, start + 4),
            ),
            used: start + 4 + length,
        }
    }
}

/// Reads a single frame from the beginning of `input`, and tells how many bytes
/// it takes up. Returns `Ok(None)` where there is no input at all. Where the
/// input ends inside a frame the error is [`WsError::UnexpectedEof`], as soon
/// as what is there breaks no rule.
pub fn read_frame(input: &[u8]) -> (result: Result<Option<(Frame, usize)>, WsError>)
    ensures
        match frame_in(input@) {
            FrameRead::Nothing => result == Ok::<Option<(Frame, usize)>, WsError>(None),
            FrameRead::Failed(error) => result == Err::<Option<(Frame, usize)>, WsError>(error),
            FrameRead::Frame { fin, opcode, payload, used } => {
                &&& result matches Ok(Some((frame, size)))
                &&& frame.fin == fin
                &&& frame.opcode == opcode
                &&& frame.payload@ == payload
                &&& size == used
            },
        },
{
    if input.len() == 0 {
        return Ok(None);
    }
    if input.len() == 1 {
        return Err(WsError::UnexpectedEof);
    }
    let fin = input[0] >= 0x80;
    let opcode = input[0] % 16;
    let short = input[1] % 128;

    // Clients must always mask their frames. Reject unmasked ones early.
    if input[1] < 0x80 {
        return Err(WsError::Unmasked);
    }
    // Control frames must have a payload length of 125 bytes or fewer.
    if opcode >= 0x8 && short > 125 {
        return Err(WsError::ControlTooLarge);
    }
    let start: usize = if short == 126 {
        4
    } else if short == 127 {
        10
    } else {
        2
    };
    if input.len() < start {
        return Err(WsError::UnexpectedEof);
    }
    let length: u64 = if short < 126 {
        short as u64
    } else {
        read_big_endian(&input[2..start])
    };
    // Guard against absurd frame sizes: only relatively small JSON messages
    // are exchanged.
    if length > MAX_FRAME_PAYLOAD {
        return Err(WsError::PayloadTooLarge);
    }
    let length: usize = length as usize;
    if input.len() < start + 4 + length {
        return Err(WsError::UnexpectedEof);
    }
    let mask: [u8; 4] = [input[start], input[start + 1], input[start + 2], input[start + 3]];
    assert(mask@ =~= input@.subrange(start as int, start + 4));
    let mut payload: Vec<u8> = Vec::new();
    append_bytes(&mut payload, &input[start + 4..start + 4 + length]);
    assert(payload@ =~= input@.subrange(start + 4, start + 4 + length));
    apply_mask(payload.as_mut_slice(), &mask);
    Ok(Some((Frame { fin, opcode, payload }, start + 4 + length)))
}

/// The payload length as a frame of the server gives it, behind its first byte.
pub open spec fn length_bytes(length: nat) -> Seq<u8> {
    if length < 126 {
        seq![length as u8]
    } else if length <= 0xFFFF {
        seq![126u8] + big_endian_bytes(length, 2)
    } else {
        seq![127u8] + big_endian_bytes(length, 8)
    }
}

/// The first byte of a frame.
pub open spec fn first_byte(fin: bool, opcode: u8) -> u8 {
    if fin {
        (0x80 + opcode % 16) as u8
    } else {
        (opcode % 16) as u8
    }
}

/// A frame as the server writes it, without a mask.
pub open spec fn frame_bytes(fin: bool, opcode: u8, payload: Seq<u8>) -> Seq<u8> {
    seq![first_byte(fin, opcode)] + length_bytes(payload.len()) + payload
}

/// Writes a single, unmasked frame (frames sent by a server are never masked)
/// behind what `writer` holds.
pub fn write_frame(writer: &mut Vec<u8>, fin: bool, opcode: u8, payload: &[u8])
    ensures
        final(writer)@ == old(writer)@ + frame_bytes(fin, opcode, payload@),
{
    let ghost before = writer@;
    let low: u8 = opcode % 16;
    writer.push(if fin { 0x80 + low } else { low });
    let length: usize = payload.len();
    if length < 126 {
        writer.push(length as u8);
    } else if length <= 0xFFFF {
        writer.push(126);
        push_big_endian(writer, length as u64, 2);
    } else {
        writer.push(127);
        push_big_endian(writer, length as u64, 8);
    }
    assert(writer@ =~= before + (seq![first_byte(fin, opcode)] + length_bytes(payload@.len())));
    append_bytes(writer, payload);
    assert(writer@ =~= before + frame_bytes(fin, opcode, payload@));
}

/// A message payload as the server writes it: in one frame, or in fragments of
/// [`MAX_FRAGMENT_SIZE`] bytes of which all but the first are continuation
/// frames and only the last one is final.
pub open spec fn message_bytes(opcode: u8, payload: Seq<u8>) -> Seq<u8>
    decreases payload.len(),
{
    if payload.len() <= MAX_FRAGMENT_SIZE {
        frame_bytes(true, opcode, payload)
    } else {
        frame_bytes(false, opcode, payload.take(MAX_FRAGMENT_SIZE as int)) + message_bytes(
            0x0,
            payload.skip(MAX_FRAGMENT_SIZE as int),
        )
    }
}

/// Writes a message, fragmenting payloads larger than a single frame into
/// 1 MiB chunks.
pub fn write_message(writer: &mut Vec<u8>, message: &WsMessage)
    ensures
        final(writer)@ == old(writer)@ + message_bytes(message@.opcode(), message@.payload()),
{
    let ghost before = writer@;
    let mut opcode = message.opcode();
    let payload = message.payload();
    let ghost whole = message_bytes(opcode, payload@);
    let length = payload.len();
    let mut start: usize = 0;
    assert(payload@.skip(0) =~= payload@);
    while length - start > MAX_FRAGMENT_SIZE
        invariant
            length == payload@.len(),
            start <= length,
            before + whole == writer@ + message_bytes(opcode, payload@.skip(start as int)),
        decreases length - start,
    {
        let end: usize = start + MAX_FRAGMENT_SIZE;
        let ghost rest = payload@.skip(start as int);
        let ghost written = writer@;
        assert(rest.take(MAX_FRAGMENT_SIZE as int) =~= payload@.subrange(start as int, end as int));
        assert(rest.skip(MAX_FRAGMENT_SIZE as int) =~= payload@.skip(end as int));
        write_frame(writer, false, opcode, &payload.as_slice()[start..end]);
        assert(written + message_bytes(opcode, rest) =~= writer@ + message_bytes(
            0x0,
            payload@.skip(end as int),
        ));
        opcode = 0x0;
        start = end;
    }
    assert(payload@.skip(start as int) =~= payload@.subrange(start as int, length as int));
    write_frame(writer, true, opcode, &payload.as_slice()[start..length]);
}

/// What a complete data message says.
pub open spec fn decoded(opcode: u8, payload: Seq<u8>) -> Result<Message, WsError> {
    if opcode == 0x1 {
        if valid_utf8(payload) {
            Ok(Message::Text(decode_utf8(payload)))
        } else {
            Err(WsError::NotUtf8)
        }
    } else {
        Ok(Message::Binary(payload))
    }
}

/// A result holds a message with the given contents, or the given error.
pub open spec fn tells(result: Result<WsMessage, WsError>, expected: Result<Message, WsError>) -> bool {
    match expected {
        Ok(message) => result matches Ok(m) && m@ == message,
        Err(error) => result == Err::<WsMessage, WsError>(error),
    }
}

/// Decodes a completed data frame or message into a [`WsMessage`].
pub fn decode_data_message(opcode: u8, payload: Vec<u8>) -> (result: Result<WsMessage, WsError>)
    requires
        opcode == 0x1 || opcode == 0x2,
    ensures
        tells(result, decoded(opcode, payload@)),
{
    if opcode == 0x1 {
        match utf8_text(payload) {
            Some(text) => Ok(WsMessage::Text(text)),
            None => Err(WsError::NotUtf8),
        }
    } else {
        Ok(WsMessage::Binary(payload))
    }
}

/// The reason that the payload of a close frame gives behind its status code.
pub open spec fn close_reason(payload: Seq<u8>) -> Option<Seq<char>> {
    if payload.len() > 2 && valid_utf8(payload.skip(2)) {
        Some(decode_utf8(payload.skip(2)))
    } else {
        None
    }
}

/// A message that was begun: its opcode, and its payload so far.
pub type Begun = Option<(u8, Seq<u8>)>;

/// What follows from a frame.
pub enum FrameEffect {
    /// Reading goes on. `answer` is to be sent to the client.
    Continue { begun: Begun, answer: Seq<u8> },
    /// A message is complete. `answer` is to be sent to the client.
    Deliver { message: Message, answer: Seq<u8> },
    /// The frame breaks a rule.
    Fail(WsError),
}

/// What follows from a data message being complete.
pub open spec fn completed(opcode: u8, payload: Seq<u8>) -> FrameEffect {
    match decoded(opcode, payload) {
        Ok(message) => FrameEffect::Deliver { message, answer: Seq::empty() },
        Err(error) => FrameEffect::Fail(error),
    }
}

/// What follows from a frame while the message `begun` is being received.
pub open spec fn frame_effect(begun: Begun, fin: bool, opcode: u8, payload: Seq<u8>) -> FrameEffect {
    if opcode == 0x0 {
        match begun {
            None => FrameEffect::Fail(WsError::UnexpectedContinuation),
            Some((first, so_far)) => if fin {
                completed(first, so_far + payload)
            } else {
                FrameEffect::Continue {
                    begun: Some((first, so_far + payload)),
                    answer: Seq::empty(),
                }
            },
        }
    } else if opcode == 0x1 || opcode == 0x2 {
        if fin {
            completed(opcode, payload)
        } else if begun is Some {
            FrameEffect::Fail(WsError::NestedFragments)
        } else {
            FrameEffect::Continue { begun: Some((opcode, payload)), answer: Seq::empty() }
        }
    } else if opcode == 0x8 {
        FrameEffect::Deliver {
            message: Message::Close(close_reason(payload)),
            answer: frame_bytes(true, 0x8, payload),
        }
    } else if opcode == 0x9 {
        FrameEffect::Continue { begun, answer: frame_bytes(true, 0xA, payload) }
    } else if opcode == 0xA {
        FrameEffect::Continue { begun, answer: Seq::empty() }
    } else {
        FrameEffect::Fail(WsError::UnsupportedOpcode(opcode))
    }
}

/// What reading goes on with, comes up with and sends.
pub struct Drained {
    /// The input that is left.
    pub input: Seq<u8>,
    /// The message that is being received.
    pub begun: Begun,
    /// What is to be sent to the client.
    pub answers: Seq<u8>,
    /// A message, an error, or `None` where the input is used up.
    pub outcome: Option<Result<Message, WsError>>,
}

/// Reads frames from the beginning of `input` until there is a message.
pub open spec fn drain(input: Seq<u8>, begun: Begun) -> Drained
    decreases input.len(),
{
    match frame_in(input) {
        FrameRead::Nothing => Drained { input, begun, answers: Seq::empty(), outcome: None },
        FrameRead::Failed(error) => Drained {
            input,
            begun,
            answers: Seq::empty(),
            outcome: if error == WsError::UnexpectedEof {
                None
            } else {
                Some(Err(error))
            },
        },
        FrameRead::Frame { fin, opcode, payload, used } => {
            let rest = input.skip(used);
            match frame_effect(begun, fin, opcode, payload) {
                FrameEffect::Continue { begun, answer } => {
                    let further = drain(rest, begun);
                    Drained { answers: answer + further.answers, ..further }
                },
                FrameEffect::Deliver { message, answer } => Drained {
                    input: rest,
                    begun: None,
                    answers: answer,
                    outcome: Some(Ok(message)),
                },
                FrameEffect::Fail(error) => Drained {
                    input: rest,
                    begun: None,
                    answers: Seq::empty(),
                    outcome: Some(Err(error)),
                },
            }
        },
    }
}

/// The receiving half of a WebSocket connection: the bytes that have come and
/// are not used yet, and the fragmented message that was begun.
pub struct WsReceiver {
    pub input: Vec<u8>,
    pub begun: Option<(u8, Vec<u8>)>,
}

impl WsReceiver {
    /// The message that is being received.
    pub open spec fn begun(&self) -> Begun {
        match self.begun {
            Some((opcode, payload)) => Some((opcode, payload@)),
            None => None,
        }
    }

    /// Only a data frame begins a message.
    pub open spec fn wf(&self) -> bool {
        self.begun matches Some((opcode, _)) ==> opcode == 0x1 || opcode == 0x2
    }

    /// Nothing received, but for `input`.
    pub fn new(input: Vec<u8>) -> (receiver: Self)
        ensures
            receiver.wf(),
            receiver.input@ == input@,
            receiver.begun() is None,
    {
        WsReceiver { input, begun: None }
    }

    /// Takes bytes that came from the client.
    pub fn receive(&mut self, bytes: &[u8])
        requires
            old(self).wf(),
        ensures
            final(self).wf(),
            final(self).input@ == old(self).input@ + bytes@,
            final(self).begun() == old(self).begun(),
    {
        append_bytes(&mut self.input, bytes);
    }

    /// Tells what the end of the stream means now: the client closed the
    /// connection, or the stream broke off inside a frame.
    pub fn end_of_stream(&self) -> (result: Result<(), WsError>)
        ensures
            result == if self.input@.len() == 0 {
                Ok::<(), WsError>(())
            } else {
                Err::<(), WsError>(WsError::UnexpectedEof)
            },
    {
        if self.input.len() == 0 {
            Ok(())
        } else {
            Err(WsError::UnexpectedEof)
        }
    }

    /// Applies one frame. Returns the message that it completes, if any.
    fn take_frame(&mut self, frame: Frame, answers: &mut Vec<u8>) -> (result: Result<
        Option<WsMessage>,
        WsError,
    >)
        requires
            old(self).wf(),
        ensures
            final(self).wf(),
            final(self).input@ == old(self).input@,
            match frame_effect(old(self).begun(), frame.fin, frame.opcode, frame.payload@) {
                FrameEffect::Continue { begun, answer } => {
                    &&& result == Ok::<Option<WsMessage>, WsError>(None)
                    &&& final(self).begun() == begun
                    &&& final(answers)@ == old(answers)@ + answer
                },
                FrameEffect::Deliver { message, answer } => {
                    &&& result matches Ok(Some(m))
                    &&& m@ == message
                    &&& final(self).begun() is None
                    &&& final(answers)@ == old(answers)@ + answer
                },
                FrameEffect::Fail(error) => {
                    &&& result == Err::<Option<WsMessage>, WsError>(error)
                    &&& final(self).begun() is None
                    &&& final(answers)@ == old(answers)@
                },
            },
    {
        let begun = self.begun.take();
        let Frame { fin, opcode, payload } = frame;
        assert(answers@ + Seq::<u8>::empty() =~= answers@);
        match opcode {
            0x0 => {
                let Some((first, so_far)) = begun else {
                    return Err(WsError::UnexpectedContinuation);
                };
                let mut fragments = so_far;
                append_bytes(&mut fragments, payload.as_slice());
                if fin {
                    // A final continuation frame, completing the message.
                    match decode_data_message(first, fragments) {
                        Ok(message) => Ok(Some(message)),
                        Err(error) => Err(error),
                    }
                } else {
                    // A continuation frame of a fragmented message.
                    self.begun = Some((first, fragments));
                    Ok(None)
                }
            },
            0x1 | 0x2 => {
                if fin {
                    return match decode_data_message(opcode, payload) {
                        Ok(message) => Ok(Some(message)),
                        Err(error) => Err(error),
                    };
                }
                // The first frame of a fragmented message.
                if begun.is_some() {
                    return Err(WsError::NestedFragments);
                }
                self.begun = Some((opcode, payload));
                Ok(None)
            },
            0x8 => {
                // Echo the close frame back and report the closed connection
                // to the caller.
                write_frame(answers, true, 0x8, payload.as_slice());
                let reason = if payload.len() > 2 {
                    let mut rest: Vec<u8> = Vec::new();
                    append_bytes(&mut rest, &payload.as_slice()[2..payload.len()]);
                    assert(rest@ =~= payload@.skip(2));
                    utf8_text(rest)
                } else {
                    None
                };
                Ok(Some(WsMessage::Close(reason)))
            },
            0x9 => {
                // Ping: answer with an equivalent pong and keep reading.
                let pong = WsMessage::Pong(payload);
                let bytes = pong.payload();
                write_frame(answers, true, pong.opcode(), bytes.as_slice());
                self.begun = begun;
                Ok(None)
            },
            0xA => {
                // Unsolicited pongs are ignored.
                self.begun = begun;
                Ok(None)
            },
            _ => Err(WsError::UnsupportedOpcode(opcode)),
        }
    }

    /// Reads the next message from what has come in, transparently handling
    /// fragmentation and answering pings with pongs: what is to be sent to the
    /// client is put behind what `answers` holds. Returns `Ok(None)` where the
    /// input is used up before a message is complete.
    pub fn read_message(&mut self, answers: &mut Vec<u8>) -> (result: Result<
        Option<WsMessage>,
        WsError,
    >)
        requires
            old(self).wf(),
        ensures
            final(self).wf(),
            ({
                let drained = drain(old(self).input@, old(self).begun());
                &&& final(self).input@ == drained.input
                &&& final(self).begun() == drained.begun
                &&& final(answers)@ == old(answers)@ + drained.answers
                &&& match drained.outcome {
                    None => result == Ok::<Option<WsMessage>, WsError>(None),
                    Some(Ok(message)) => result matches Ok(Some(m)) && m@ == message,
                    Some(Err(error)) => result == Err::<Option<WsMessage>, WsError>(error),
                }
            }),
    {
        let ghost whole = drain(self.input@, self.begun());
        let ghost before = answers@;
        loop
            invariant
                self.wf(),
                whole == drain(old(self).input@, old(self).begun()),
                before == old(answers)@,
                ({
                    let drained = drain(self.input@, self.begun());
                    &&& whole == (Drained { answers: whole.answers, ..drained })
                    &&& before + whole.answers == answers@ + drained.answers
                }),
            decreases self.input@.len(),
        {
            let ghost drained = drain(self.input@, self.begun());
            assert(answers@ + Seq::<u8>::empty() =~= answers@);
            let (frame, used) = match read_frame(self.input.as_slice()) {
                Ok(Some((frame, used))) => (frame, used),
                Ok(None) => {
                    return Ok(None);
                },
                Err(error) => {
                    if let WsError::UnexpectedEof = error {
                        return Ok(None);
                    }
                    return Err(error);
                },
            };
            let ghost sent = answers@;
            let ghost input = self.input@;
            let rest = self.input.split_off(used);
            assert(rest@ =~= input.skip(used as int));
            self.input = rest;
            match self.take_frame(frame, answers) {
                Ok(None) => {
                    assert(answers@ + drain(self.input@, self.begun()).answers =~= sent
                        + drained.answers);
                },
                Ok(Some(message)) => {
                    return Ok(Some(message));
                },
                Err(error) => {
                    return Err(error);
                },
            }
        }
    }
}

/// A frame as a client sends it: with a mask.
pub open spec fn client_frame(fin: bool, opcode: u8, payload: Seq<u8>, mask: Seq<u8>) -> Seq<u8> {
    let length = length_bytes(payload.len());
    seq![first_byte(fin, opcode)] + length.update(0, (length[0] + 0x80) as u8) + mask + masked(
        payload,
        mask,
    )
}

/// A frame that a client may send.
pub open spec fn sendable(opcode: u8, payload: Seq<u8>, mask: Seq<u8>) -> bool {
    &&& mask.len() == 4
    &&& payload.len() <= MAX_FRAME_PAYLOAD
    &&& opcode < 16
    &&& opcode >= 0x8 ==> payload.len() <= 125
}

/// Masking twice with the same key changes nothing.
pub proof fn law_mask_is_its_own_inverse(payload: Seq<u8>, mask: Seq<u8>)
    ensures
        masked(masked(payload, mask), mask) == payload,
{
    assert forall|i: int| 0 <= i < payload.len() implies masked(masked(payload, mask), mask)[i]
        == payload[i] by {
        let byte = payload[i];
        let key = mask[i % 4];
        assert((byte ^ key) ^ key == byte) by (bit_vector);
    }
    assert(masked(masked(payload, mask), mask) =~= payload);
}

/// What a client sends in a frame is what is read, whatever comes behind it.
pub proof fn law_frame_roundtrip(
    fin: bool,
    opcode: u8,
    payload: Seq<u8>,
    mask: Seq<u8>,
    rest: Seq<u8>,
)
    requires
        sendable(opcode, payload, mask),
    ensures
        frame_in(client_frame(fin, opcode, payload, mask) + rest) == (FrameRead::Frame {
            fin,
            opcode,
            payload,
            used: client_frame(fin, opcode, payload, mask).len() as int,
        }),
        (client_frame(fin, opcode, payload, mask) + rest).skip(
            client_frame(fin, opcode, payload, mask).len() as int,
        ) == rest,
{
    let frame = client_frame(fin, opcode, payload, mask);
    let input = frame + rest;
    let size = payload.len();
    let width = if size < 126 {
        0nat
    } else if size <= 0xFFFF {
        2nat
    } else {
        8nat
    };
    reveal_with_fuel(byte_range, 9);
    lemma_big_endian_bytes(size, width);
    law_mask_is_its_own_inverse(payload, mask);
    let start: int = 2 + width as int;
    assert(frame.len() == start + 4 + size);
    assert(input[0] == first_byte(fin, opcode));
    assert(width > 0 ==> input.subrange(2, start) =~= big_endian_bytes(size, width));
    assert(input.subrange(start, start + 4) =~= mask);
    assert(input.subrange(start + 4, start + 4 + size) =~= masked(payload, mask));
    assert(input.skip(frame.len() as int) =~= rest);
}

/// More input changes nothing of a frame that was read, or refused.
pub proof fn law_frame_is_decided_by_its_beginning(input: Seq<u8>, more: Seq<u8>)
    ensures
        match frame_in(input) {
            FrameRead::Nothing => input.len() == 0,
            FrameRead::Failed(error) => error != WsError::UnexpectedEof ==> frame_in(input + more)
                == frame_in(input),
            FrameRead::Frame { used, .. } => {
                &&& 0 < used <= input.len()
                &&& frame_in(input + more) == frame_in(input)
                &&& (input + more).skip(used) == input.skip(used) + more
            },
        },
{
    let longer = input + more;
    if input.len() >= 2 {
        let start = 2 + length_width((input[1] % 128) as int);
        assert(longer[0] == input[0]);
        assert(longer[1] == input[1]);
        if input.len() >= start {
            assert(longer.subrange(2, start) =~= input.subrange(2, start));
            if let FrameRead::Frame { used, .. } = frame_in(input) {
                assert(longer.subrange(start, start + 4) =~= input.subrange(start, start + 4));
                assert(longer.subrange(start + 4, used) =~= input.subrange(start + 4, used));
                assert(longer.skip(used) =~= input.skip(used) + more);
            }
        }
    }
}

/// How the input is cut up does not matter: reading what has come, and going on
/// when more has come, gives what reading all of it at once gives.
pub proof fn law_input_may_come_in_pieces(input: Seq<u8>, more: Seq<u8>, begun: Begun)
    ensures
        ({
            let first = drain(input, begun);
            drain(input + more, begun) == match first.outcome {
                Some(_) => Drained { input: first.input + more, ..first },
                None => {
                    let second = drain(first.input + more, first.begun);
                    Drained { answers: first.answers + second.answers, ..second }
                },
            }
        }),
    decreases input.len(),
{
    law_frame_is_decided_by_its_beginning(input, more);
    let first = drain(input, begun);
    let all = drain(input + more, begun);
    match frame_in(input) {
        FrameRead::Nothing => {
            assert(Seq::<u8>::empty() + all.answers =~= all.answers);
        },
        FrameRead::Failed(_) => {
            assert(Seq::<u8>::empty() + all.answers =~= all.answers);
        },
        FrameRead::Frame { fin, opcode, payload, used } => {
            if let FrameEffect::Continue { begun: next, answer } = frame_effect(
                begun,
                fin,
                opcode,
                payload,
            ) {
                let rest = input.skip(used);
                law_input_may_come_in_pieces(rest, more, next);
                let further = drain(rest, next);
                let second = drain(further.input + more, further.begun);
                assert(answer + (further.answers + second.answers) =~= (answer + further.answers)
                    + second.answers);
            }
        },
    }
}

/// A ping is answered with a pong that carries the same payload, and has no
/// other effect, in the middle of a fragmented message too.
pub proof fn law_ping_is_answered(payload: Seq<u8>, mask: Seq<u8>, rest: Seq<u8>, begun: Begun)
    requires
        sendable(0x9, payload, mask),
    ensures
        ({
            let further = drain(rest, begun);
            drain(client_frame(true, 0x9, payload, mask) + rest, begun) == (Drained {
                answers: frame_bytes(true, 0xA, payload) + further.answers,
                ..further
            })
        }),
{
    law_frame_roundtrip(true, 0x9, payload, mask, rest);
}

/// A close frame is sent back and reported.
pub proof fn law_close_is_echoed(payload: Seq<u8>, mask: Seq<u8>, rest: Seq<u8>, begun: Begun)
    requires
        sendable(0x8, payload, mask),
    ensures
        drain(client_frame(true, 0x8, payload, mask) + rest, begun) == (Drained {
            input: rest,
            begun: None,
            answers: frame_bytes(true, 0x8, payload),
            outcome: Some(Ok(Message::Close(close_reason(payload)))),
        }),
{
    law_frame_roundtrip(true, 0x8, payload, mask, rest);
}

/// A piece of a message, and the mask that it is sent with.
pub struct Piece {
    pub payload: Seq<u8>,
    pub mask: Seq<u8>,
}

/// The payload that pieces make up.
pub open spec fn whole(pieces: Seq<Piece>) -> Seq<u8>
    decreases pieces.len(),
{
    if pieces.len() == 0 {
        Seq::empty()
    } else {
        pieces[0].payload + whole(pieces.skip(1))
    }
}

/// The frames in which a client sends a message in pieces.
pub open spec fn client_frames(opcode: u8, pieces: Seq<Piece>) -> Seq<u8>
    decreases pieces.len(),
{
    if pieces.len() == 0 {
        Seq::empty()
    } else {
        client_frame(pieces.len() == 1, opcode, pieces[0].payload, pieces[0].mask) + client_frames(
            0x0,
            pieces.skip(1),
        )
    }
}

/// Pieces that a client may send.
pub open spec fn sendable_pieces(pieces: Seq<Piece>) -> bool {
    &&& pieces.len() > 0
    &&& forall|i: int|
        0 <= i < pieces.len() ==> sendable(0x0, (#[trigger] pieces[i]).payload, pieces[i].mask)
}

proof fn lemma_continuation(
    opcode: u8,
    so_far: Seq<u8>,
    pieces: Seq<Piece>,
    rest: Seq<u8>,
)
    requires
        sendable_pieces(pieces),
    ensures
        drain(client_frames(0x0, pieces) + rest, Some((opcode, so_far))) == (Drained {
            input: rest,
            begun: None,
            answers: Seq::empty(),
            outcome: Some(decoded(opcode, so_far + whole(pieces))),
        }),
    decreases pieces.len(),
{
    let piece = pieces[0];
    let others = pieces.skip(1);
    let fin = pieces.len() == 1;
    let frame = client_frame(fin, 0x0, piece.payload, piece.mask);
    let further = client_frames(0x0, others) + rest;
    assert(client_frames(0x0, pieces) + rest =~= frame + further);
    law_frame_roundtrip(fin, 0x0, piece.payload, piece.mask, further);
    if fin {
        assert(others.len() == 0);
        assert(further =~= rest);
        assert(whole(others) == Seq::<u8>::empty());
        assert(piece.payload + Seq::<u8>::empty() =~= piece.payload);
    } else {
        assert forall|i: int| 0 <= i < others.len() implies sendable(
            0x0,
            (#[trigger] others[i]).payload,
            others[i].mask,
        ) by {
            assert(others[i] == pieces[i + 1]);
        }
        lemma_continuation(opcode, so_far + piece.payload, others, rest);
        assert(so_far + piece.payload + whole(others) =~= so_far + whole(pieces));
        assert(Seq::<u8>::empty() + Seq::<u8>::empty() =~= Seq::<u8>::empty());
    }
}

/// A message is put together again from the pieces in which a client sends it,
/// however it was cut up.
pub proof fn law_fragments_are_reassembled(opcode: u8, pieces: Seq<Piece>, rest: Seq<u8>)
    requires
        opcode == 0x1 || opcode == 0x2,
        sendable_pieces(pieces),
    ensures
        drain(client_frames(opcode, pieces) + rest, None) == (Drained {
            input: rest,
            begun: None,
            answers: Seq::empty(),
            outcome: Some(decoded(opcode, whole(pieces))),
        }),
{
    let piece = pieces[0];
    let others = pieces.skip(1);
    let fin = pieces.len() == 1;
    let frame = client_frame(fin, opcode, piece.payload, piece.mask);
    let further = client_frames(0x0, others) + rest;
    assert(client_frames(opcode, pieces) + rest =~= frame + further);
    law_frame_roundtrip(fin, opcode, piece.payload, piece.mask, further);
    if fin {
        assert(others.len() == 0);
        assert(further =~= rest);
        assert(whole(others) == Seq::<u8>::empty());
        assert(piece.payload + Seq::<u8>::empty() =~= piece.payload);
    } else {
        assert forall|i: int| 0 <= i < others.len() implies sendable(
            0x0,
            (#[trigger] others[i]).payload,
            others[i].mask,
        ) by {
            assert(others[i] == pieces[i + 1]);
        }
        lemma_continuation(opcode, piece.payload, others, rest);
        assert(Seq::<u8>::empty() + Seq::<u8>::empty() =~= Seq::<u8>::empty());
    }
}

/// The frame at the beginning of what a server sends, as a client reads it, and
/// the number of bytes that it takes up.
pub open spec fn server_frame(bytes: Seq<u8>) -> (bool, u8, Seq<u8>, int) {
    let short = bytes[1] as int;
    let start = 2 + length_width(short);
    let length = if length_width(short) == 0 {
        short
    } else {
        big_endian(bytes.subrange(2, start)) as int
    };
    (bytes[0] >= 0x80, (bytes[0] % 16) as u8, bytes.subrange(start, start + length), start + length)
}

/// The frames that a server sends are never masked, and a client reads from
/// them what was written.
pub proof fn law_written_frame_is_read_back(
    fin: bool,
    opcode: u8,
    payload: Seq<u8>,
    rest: Seq<u8>,
)
    requires
        opcode < 16,
        payload.len() <= u64::MAX,
    ensures
        frame_bytes(fin, opcode, payload)[1] < 0x80,
        server_frame(frame_bytes(fin, opcode, payload) + rest) == (
            fin,
            opcode,
            payload,
            frame_bytes(fin, opcode, payload).len() as int,
        ),
{
    let frame = frame_bytes(fin, opcode, payload);
    let bytes = frame + rest;
    let size = payload.len();
    let width = if size < 126 {
        0nat
    } else if size <= 0xFFFF {
        2nat
    } else {
        8nat
    };
    reveal_with_fuel(byte_range, 9);
    lemma_big_endian_bytes(size, width);
    let start: int = 2 + width as int;
    assert(bytes[0] == first_byte(fin, opcode));
    assert(width > 0 ==> bytes.subrange(2, start) =~= big_endian_bytes(size, width));
    assert(bytes.subrange(start, start + size) =~= payload);
}

/// What a client puts together from `count` frames: the payloads of all of
/// them, if the last one is the only final one and all but the first one are
/// continuation frames.
pub open spec fn received(opcode: u8, bytes: Seq<u8>, count: nat) -> Option<Seq<u8>>
    decreases count,
{
    if count == 0 {
        None
    } else {
        let (fin, found, payload, used) = server_frame(bytes);
        if found != opcode || fin != (count == 1) || payload.len() > MAX_FRAGMENT_SIZE {
            None
        } else if fin {
            if bytes.len() == used {
                Some(payload)
            } else {
                None
            }
        } else {
            match received(0x0, bytes.skip(used), (count - 1) as nat) {
                Some(further) => Some(payload + further),
                None => None,
            }
        }
    }
}

/// The number of frames that a message payload of `length` bytes is sent in.
pub open spec fn frame_count(length: nat) -> nat
    decreases length,
{
    if length <= MAX_FRAGMENT_SIZE {
        1
    } else {
        1 + frame_count((length - MAX_FRAGMENT_SIZE) as nat)
    }
}

/// A message that is sent in fragments arrives whole: no fragment is larger
/// than the limit, and together they are the message's payload.
pub proof fn law_written_message_arrives(opcode: u8, payload: Seq<u8>)
    requires
        opcode < 16,
    ensures
        received(opcode, message_bytes(opcode, payload), frame_count(payload.len())) == Some(
            payload,
        ),
    decreases payload.len(),
{
    if payload.len() <= MAX_FRAGMENT_SIZE {
        let frame = frame_bytes(true, opcode, payload);
        law_written_frame_is_read_back(true, opcode, payload, Seq::empty());
        assert(frame + Seq::<u8>::empty() =~= frame);
    } else {
        let part = payload.take(MAX_FRAGMENT_SIZE as int);
        let others = payload.skip(MAX_FRAGMENT_SIZE as int);
        let frame = frame_bytes(false, opcode, part);
        let further = message_bytes(0x0, others);
        law_written_frame_is_read_back(false, opcode, part, further);
        law_written_message_arrives(0x0, others);
        assert((frame + further).skip(frame.len() as int) =~= further);
        assert(part + others =~= payload);
    }
}

} // verus!
