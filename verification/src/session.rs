//! The exchanges of a session with the device, as functions of the bytes that
//! go out and come in.
//!
//! A session is half-duplex: one request, then its response if it has one. A
//! message and an update have none. A ping is answered by its own payload. A
//! status request is answered by a frame whose payload holds the telemetry.

use vstd::prelude::*;
use crate::codec::{check_echo, encode_ping, frame_bytes, ping_content, HEADER_BYTE};
use crate::datatypes::{EspOperation, ProtocolError, TelemetryKey};
use crate::framing::{
    encodable, leading_noise_is_skipped, read_frame, received, response_bytes,
    response_round_trip, LengthEncoding,
};
use crate::telemetry::{
    decode_status, decoded_status, readings_map, status_payload, status_round_trip, Telemetry,
    TelemetryReading,
};

verus! {

/// What a status poll gives when `stream` is what the device sends and
/// nothing follows it: the telemetry of the first frame in the stream, or the
/// error at which reading or decoding stops.
pub open spec fn polled(encoding: LengthEncoding, stream: Seq<u8>) -> Result<
    Map<TelemetryKey, i16>,
    ProtocolError,
> {
    let end = received(encoding, stream);
    if end.complete() {
        decoded_status(end.payload)
    } else if end.fits() {
        Err(ProtocolError::TransportError)
    } else {
        Err(ProtocolError::PayloadTooLarge)
    }
}

/// The response side of a status poll: reads the first frame of `stream` and
/// decodes its payload.
pub fn poll_status(encoding: LengthEncoding, stream: &[u8]) -> (result: Result<
    Telemetry,
    ProtocolError,
>)
    ensures
        match result {
            Ok(telemetry) => polled(encoding, stream@) == Ok::<
                Map<TelemetryKey, i16>,
                ProtocolError,
            >(telemetry@),
            Err(error) => polled(encoding, stream@) == Err::<Map<TelemetryKey, i16>, ProtocolError>(
                error,
            ),
        },
{
    match read_frame(encoding, stream) {
        Ok((payload, _)) => decode_status(payload.as_slice()),
        Err(error) => Err(error),
    }
}

/// The response side of a ping: the echoed bytes must be the ping payload.
pub fn check_ping(echoed: &[u8]) -> (result: Result<(), ProtocolError>)
    ensures
        echoed@ == ping_content() ==> result == Ok::<(), ProtocolError>(()),
        echoed@ != ping_content() ==> result == Err::<(), ProtocolError>(
            ProtocolError::EchoMismatch,
        ),
{
    let sent = encode_ping();
    check_echo(sent.as_slice(), echoed)
}

/// A stray byte in front of the response changes nothing in what a poll
/// gives, if it is no synchronisation byte.
pub proof fn poll_skips_leading_noise(encoding: LengthEncoding, noise: u8, stream: Seq<u8>)
    requires
        noise != HEADER_BYTE,
    ensures
        polled(encoding, seq![noise] + stream) == polled(encoding, stream),
{
    leading_noise_is_skipped(encoding, noise, stream);
}

/// A poll gives back the readings that the device put into its response,
/// whatever the operation byte of the response and whatever follows it.
pub proof fn poll_round_trip(
    encoding: LengthEncoding,
    operation: u8,
    readings: Seq<TelemetryReading>,
    trailing: Seq<u8>,
)
    requires
        readings.len() > 0,
        encodable(encoding, status_payload(readings).len()),
    ensures
        polled(encoding, response_bytes(encoding, operation, status_payload(readings)) + trailing)
            == Ok::<Map<TelemetryKey, i16>, ProtocolError>(readings_map(readings)),
{
    response_round_trip(encoding, operation, status_payload(readings), trailing);
    status_round_trip(readings);
}

/// A frame as this side builds it is a response frame in the fixed encoding:
/// a reader of that encoding reads the payload back from it.
pub proof fn request_reads_back(operation: EspOperation, payload: Seq<u8>)
    requires
        payload.len() <= 65535,
    ensures
        frame_bytes(operation, payload) == response_bytes(
            LengthEncoding::FixedBigEndian,
            operation.wire_code(),
            payload,
        ),
        received(LengthEncoding::FixedBigEndian, frame_bytes(operation, payload)).complete(),
        received(LengthEncoding::FixedBigEndian, frame_bytes(operation, payload)).payload
            == payload,
{
    assert(frame_bytes(operation, payload) =~= response_bytes(
        LengthEncoding::FixedBigEndian,
        operation.wire_code(),
        payload,
    ));
    response_round_trip(
        LengthEncoding::FixedBigEndian,
        operation.wire_code(),
        payload,
        Seq::<u8>::empty(),
    );
}

} // verus!
