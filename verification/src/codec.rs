//! The wire codec: headers, frames and the payloads of the typed operations.
//!
//! A frame is a five-byte header followed by its payload. The header holds two
//! synchronisation bytes, the operation byte and the payload length as two
//! big-endian bytes. Nothing here performs I/O: every function maps values to
//! bytes or bytes to values.

use vstd::prelude::*;
use vstd::string::StringSliceAdditionalSpecFns;
use crate::datatypes::{EspOperation, ProtocolError, VariableUpdateTarget};

verus! {

/// The synchronisation byte that opens every frame, twice.
pub const HEADER_BYTE: u8 = 0x46;

/// Number of bytes in a header.
pub const HEADER_LEN: usize = 5;

/// Largest payload length that the two length bytes of a header can carry.
pub const MAX_CONTENT_LENGTH: usize = 65535;

/// The unsigned 16-bit number that two big-endian bytes spell.
pub open spec fn be_u16(hi: u8, lo: u8) -> int {
    hi as int * 256 + lo as int
}

/// The signed 16-bit number that two big-endian bytes spell in two's
/// complement.
pub open spec fn be_i16(hi: u8, lo: u8) -> int {
    if be_u16(hi, lo) >= 32768 {
        be_u16(hi, lo) - 65536
    } else {
        be_u16(hi, lo)
    }
}

/// The two's complement bit pattern of a signed 16-bit number, as an unsigned
/// number below 65536.
pub open spec fn pattern_of(value: i16) -> int {
    if value < 0 {
        value as int + 65536
    } else {
        value as int
    }
}

/// High byte of the big-endian two's complement form of `value`.
pub open spec fn high_byte(value: i16) -> u8 {
    (pattern_of(value) / 256) as u8
}

/// Low byte of the big-endian two's complement form of `value`.
pub open spec fn low_byte(value: i16) -> u8 {
    (pattern_of(value) % 256) as u8
}

/// The two big-endian bytes of a value spell that value.
pub proof fn be_i16_of_bytes(value: i16)
    ensures
        be_i16(high_byte(value), low_byte(value)) == value,
{
    assert(be_u16(high_byte(value), low_byte(value)) == pattern_of(value));
}

/// The header of a frame with the given operation and payload length.
pub open spec fn header_bytes(operation: EspOperation, content_length: u16) -> Seq<u8> {
    seq![
        HEADER_BYTE,
        HEADER_BYTE,
        operation.wire_code(),
        (content_length / 256) as u8,
        (content_length % 256) as u8,
    ]
}

/// What a five-byte header announces: its operation and payload length.
/// `None` unless the bytes are exactly a header: five bytes, both
/// synchronisation bytes in place, and a defined operation.
pub open spec fn parsed_header(bytes: Seq<u8>) -> Option<(EspOperation, u16)> {
    if bytes.len() == 5 && bytes[0] == HEADER_BYTE && bytes[1] == HEADER_BYTE {
        match EspOperation::of_code(bytes[2]) {
            Some(operation) => Some((operation, be_u16(bytes[3], bytes[4]) as u16)),
            None => None,
        }
    } else {
        None
    }
}

/// The frame that carries `payload` under `operation`: header, then payload.
pub open spec fn frame_bytes(operation: EspOperation, payload: Seq<u8>) -> Seq<u8> {
    header_bytes(operation, payload.len() as u16) + payload
}

/// Reads two big-endian bytes as a signed 16-bit number.
pub fn i16_from_be(hi: u8, lo: u8) -> (value: i16)
    ensures
        value == be_i16(hi, lo),
        high_byte(value) == hi,
        low_byte(value) == lo,
{
    let pattern: u16 = (hi as u16) * 256 + (lo as u16);
    let value: i16 = pattern as i16;
    assert(value == if pattern >= 32768 {
        pattern as int - 65536
    } else {
        pattern as int
    }) by (bit_vector)
        requires
            value == pattern as i16,
    ;
    value
}

/// Splits a signed 16-bit number into its two big-endian bytes.
pub fn i16_to_be(value: i16) -> (bytes: (u8, u8))
    ensures
        bytes.0 == high_byte(value),
        bytes.1 == low_byte(value),
        be_i16(bytes.0, bytes.1) == value,
{
    let hi: u8 = (value >> 8) as u8;
    let lo: u8 = value as u8;
    assert(hi as int == (if value < 0 {
        value as int + 65536
    } else {
        value as int
    }) / 256 && lo as int == (if value < 0 {
        value as int + 65536
    } else {
        value as int
    }) % 256) by (bit_vector)
        requires
            hi == (value >> 8) as u8,
            lo == value as u8,
    ;
    (hi, lo)
}

/// Builds the header of a frame whose payload has `content_length` bytes.
pub fn create_header(operation: EspOperation, content_length: u16) -> (header: [u8; 5])
    ensures
        header@ == header_bytes(operation, content_length),
{
    let b1: u8 = (content_length >> 8) as u8;
    let b2: u8 = content_length as u8;
    assert(b1 == (content_length / 256) as u8 && b2 == (content_length % 256) as u8)
        by (bit_vector)
        requires
            b1 == (content_length >> 8) as u8,
            b2 == content_length as u8,
    ;
    let header: [u8; 5] = [HEADER_BYTE, HEADER_BYTE, operation.code(), b1, b2];
    assert(header@ =~= header_bytes(operation, content_length));
    header
}

/// Builds a header for a payload of `content_length` bytes, and refuses a
/// length that the two length bytes cannot carry instead of truncating it.
pub fn build_header(operation: EspOperation, content_length: usize) -> (result: Result<
    [u8; 5],
    ProtocolError,
>)
    ensures
        content_length <= MAX_CONTENT_LENGTH ==> result is Ok && result->Ok_0@ == header_bytes(
            operation,
            content_length as u16,
        ),
        content_length > MAX_CONTENT_LENGTH ==> result == Err::<[u8; 5], ProtocolError>(
            ProtocolError::PayloadTooLarge,
        ),
{
    if content_length > MAX_CONTENT_LENGTH {
        Err(ProtocolError::PayloadTooLarge)
    } else {
        Ok(create_header(operation, content_length as u16))
    }
}

/// Reads a header back into its operation and payload length.
pub fn parse_header(bytes: &[u8]) -> (parsed: Option<(EspOperation, u16)>)
    ensures
        parsed == parsed_header(bytes@),
{
    if bytes.len() != 5 || bytes[0] != HEADER_BYTE || bytes[1] != HEADER_BYTE {
        return None;
    }
    match EspOperation::from_code(bytes[2]) {
        Some(operation) => {
            let length: u16 = (bytes[3] as u16) * 256 + (bytes[4] as u16);
            Some((operation, length))
        },
        None => None,
    }
}

/// A header has five bytes and is read back as the operation and the length
/// it was built from, for every operation and every length.
pub proof fn header_round_trip(operation: EspOperation, content_length: u16)
    ensures
        header_bytes(operation, content_length).len() == HEADER_LEN,
        parsed_header(header_bytes(operation, content_length)) == Some(
            (operation, content_length),
        ),
{
    let h = header_bytes(operation, content_length);
    assert(h[3] as int == content_length as int / 256);
    assert(h[4] as int == content_length as int % 256);
}

/// Whatever parses as a header is the header of what it parses as.
pub proof fn parsed_header_is_exact(bytes: Seq<u8>)
    requires
        parsed_header(bytes) is Some,
    ensures
        bytes == header_bytes(parsed_header(bytes)->Some_0.0, parsed_header(bytes)->Some_0.1),
{
    let (operation, content_length) = parsed_header(bytes)->Some_0;
    assert(bytes =~= header_bytes(operation, content_length));
}

/// Payload of an update: the target's code, then the value as two big-endian
/// bytes in two's complement.
pub open spec fn update_payload(target: VariableUpdateTarget, value: i16) -> Seq<u8> {
    seq![target.wire_code(), high_byte(value), low_byte(value)]
}

/// What the device reads from an update payload: the target and the value.
/// `None` unless the payload has three bytes and the first names a target.
pub open spec fn decoded_update(payload: Seq<u8>) -> Option<(VariableUpdateTarget, i16)> {
    if payload.len() == 3 {
        match VariableUpdateTarget::of_code(payload[0]) {
            Some(target) => Some((target, be_i16(payload[1], payload[2]) as i16)),
            None => None,
        }
    } else {
        None
    }
}

/// Payload of a ping: the eleven ASCII bytes of `p i n g g g`.
pub open spec fn ping_content() -> Seq<u8> {
    seq![0x70u8, 0x20, 0x69, 0x20, 0x6e, 0x20, 0x67, 0x20, 0x67, 0x20, 0x67]
}

/// Number of bytes in a ping payload, and so in its echo.
pub const PING_LEN: usize = 11;

/// The ping payload is the text `p i n g g g`, one byte for each character.
pub proof fn ping_content_is_text()
    ensures
        ping_content().len() == PING_LEN,
        ping_content() == "p i n g g g"@.map_values(|c: char| c as u8),
{
    reveal_strlit("p i n g g g");
    assert(ping_content() =~= "p i n g g g"@.map_values(|c: char| c as u8));
}

/// Encodes an update of `target` to `value`, which is in device units.
pub fn encode_update(target: VariableUpdateTarget, value: i16) -> (payload: [u8; 3])
    ensures
        payload@ == update_payload(target, value),
        decoded_update(payload@) == Some((target, value)),
{
    let (hi, lo) = i16_to_be(value);
    let payload: [u8; 3] = [target.code(), hi, lo];
    proof {
        assert(payload@ =~= update_payload(target, value));
        update_round_trip(target, value);
    }
    payload
}

/// Decodes an update payload as the device does.
pub fn decode_update(payload: &[u8]) -> (update: Option<(VariableUpdateTarget, i16)>)
    ensures
        update == decoded_update(payload@),
{
    if payload.len() != 3 {
        return None;
    }
    match VariableUpdateTarget::from_code(payload[0]) {
        Some(target) => Some((target, i16_from_be(payload[1], payload[2]))),
        None => None,
    }
}

/// Decoding what was encoded gives back the target and the value, for every
/// target and every value.
pub proof fn update_round_trip(target: VariableUpdateTarget, value: i16)
    ensures
        decoded_update(update_payload(target, value)) == Some((target, value)),
{
    let payload = update_payload(target, value);
    assert(payload[1] as int == pattern_of(value) / 256);
    assert(payload[2] as int == pattern_of(value) % 256);
    assert(be_u16(payload[1], payload[2]) == pattern_of(value));
}

/// An update payload decodes to one pair only: whatever decodes to a target
/// and a value is the encoding of that pair.
pub proof fn decoded_update_is_exact(payload: Seq<u8>)
    requires
        decoded_update(payload) is Some,
    ensures
        payload == update_payload(decoded_update(payload)->Some_0.0, decoded_update(payload)->Some_0.1),
{
    let (target, value) = decoded_update(payload)->Some_0;
    VariableUpdateTarget::code_round_trip(target, payload[0]);
    assert(pattern_of(value) == be_u16(payload[1], payload[2]));
    assert(payload =~= update_payload(target, value));
}

/// Constrains a value to the signed 16-bit range of an update.
pub fn update_value(value: i64) -> (result: Result<i16, ProtocolError>)
    ensures
        -32768 <= value <= 32767 ==> result == Ok::<i16, ProtocolError>(value as i16),
        !(-32768 <= value <= 32767) ==> result == Err::<i16, ProtocolError>(
            ProtocolError::ValueOutOfRange,
        ),
{
    if value < -32768 || value > 32767 {
        Err(ProtocolError::ValueOutOfRange)
    } else {
        Ok(value as i16)
    }
}

/// The payload of a ping.
pub fn encode_ping() -> (payload: [u8; 11])
    ensures
        payload@ == ping_content(),
{
    let payload: [u8; 11] = [0x70, 0x20, 0x69, 0x20, 0x6e, 0x20, 0x67, 0x20, 0x67, 0x20, 0x67];
    assert(payload@ =~= ping_content());
    payload
}

/// Compares the bytes that came back for a ping with the bytes that were
/// sent: any difference, in length or in a byte, is an echo mismatch.
pub fn check_echo(sent: &[u8], echoed: &[u8]) -> (result: Result<(), ProtocolError>)
    ensures
        echoed@ == sent@ ==> result == Ok::<(), ProtocolError>(()),
        echoed@ != sent@ ==> result == Err::<(), ProtocolError>(ProtocolError::EchoMismatch),
{
    if echoed.len() != sent.len() {
        return Err(ProtocolError::EchoMismatch);
    }
    let mut i: usize = 0;
    while i < sent.len()
        invariant
            i <= sent@.len(),
            echoed@.len() == sent@.len(),
            forall|k: int| 0 <= k < i ==> echoed@[k] == sent@[k],
        decreases sent@.len() - i,
    {
        if sent[i] != echoed[i] {
            return Err(ProtocolError::EchoMismatch);
        }
        i += 1;
    }
    assert(echoed@ =~= sent@);
    Ok(())
}

/// Puts `payload` behind the header of `operation`. A payload longer than the
/// header can announce is refused.
pub fn frame(operation: EspOperation, payload: &[u8]) -> (result: Result<Vec<u8>, ProtocolError>)
    ensures
        payload@.len() <= MAX_CONTENT_LENGTH ==> result is Ok && result->Ok_0@ == frame_bytes(
            operation,
            payload@,
        ),
        payload@.len() > MAX_CONTENT_LENGTH ==> result == Err::<Vec<u8>, ProtocolError>(
            ProtocolError::PayloadTooLarge,
        ),
{
    match build_header(operation, payload.len()) {
        Ok(header) => {
            let mut bytes: Vec<u8> = Vec::with_capacity(HEADER_LEN + payload.len());
            bytes.extend_from_slice(header.as_slice());
            bytes.extend_from_slice(payload);
            Ok(bytes)
        },
        Err(error) => Err(error),
    }
}

/// The frame of an informational text message. No response follows it.
pub fn message_frame(message: &str) -> (result: Result<Vec<u8>, ProtocolError>)
    ensures
        message.spec_bytes().len() <= MAX_CONTENT_LENGTH ==> result is Ok && result->Ok_0@
            == frame_bytes(EspOperation::Message, message.spec_bytes()),
        message.spec_bytes().len() > MAX_CONTENT_LENGTH ==> result == Err::<
            Vec<u8>,
            ProtocolError,
        >(ProtocolError::PayloadTooLarge),
{
    frame(EspOperation::Message, message.as_bytes())
}

/// The frame of a ping. The device answers with the eleven payload bytes.
pub fn ping_frame() -> (bytes: Vec<u8>)
    ensures
        bytes@ == frame_bytes(EspOperation::Ping, ping_content()),
{
    let payload = encode_ping();
    let header = create_header(EspOperation::Ping, 11);
    let mut bytes: Vec<u8> = Vec::with_capacity(HEADER_LEN + PING_LEN);
    bytes.extend_from_slice(header.as_slice());
    bytes.extend_from_slice(payload.as_slice());
    bytes
}

/// The frame that asks for a status response. Its payload is one zero byte:
/// the device wants a payload and ignores what it holds.
pub fn status_request_frame() -> (bytes: Vec<u8>)
    ensures
        bytes@ == frame_bytes(EspOperation::StatusRequest, seq![0u8]),
{
    let header = create_header(EspOperation::StatusRequest, 1);
    let mut bytes: Vec<u8> = Vec::with_capacity(HEADER_LEN + 1);
    bytes.extend_from_slice(header.as_slice());
    bytes.push(0);
    assert(bytes@ =~= frame_bytes(EspOperation::StatusRequest, seq![0u8]));
    bytes
}

/// The frame that sets `target` to `value`. No response follows it.
pub fn update_frame(target: VariableUpdateTarget, value: i16) -> (bytes: Vec<u8>)
    ensures
        bytes@ == frame_bytes(EspOperation::Update, update_payload(target, value)),
{
    let payload = encode_update(target, value);
    let header = create_header(EspOperation::Update, 3);
    let mut bytes: Vec<u8> = Vec::with_capacity(HEADER_LEN + 3);
    bytes.extend_from_slice(header.as_slice());
    bytes.extend_from_slice(payload.as_slice());
    bytes
}

} // verus!
