use franklin_client::codec::{encode_ping, ping_frame, status_request_frame};
use franklin_client::datatypes::{ProtocolError, TelemetryKey};
use franklin_client::framing::{
    encode_length, encode_response, read_frame, FrameEvent, FrameReader, LengthEncoding,
};
use franklin_client::session::{check_ping, poll_status};
use franklin_client::telemetry::{encode_status, TelemetryReading};

const ENCODINGS: [LengthEncoding; 2] =
    [LengthEncoding::SumUntilZero, LengthEncoding::FixedBigEndian];

const KEYS: [TelemetryKey; 8] = [
    TelemetryKey::PidProportional,
    TelemetryKey::PidIntegral,
    TelemetryKey::PidDerivative,
    TelemetryKey::MotorsEnabled,
    TelemetryKey::GyroOffset,
    TelemetryKey::GyroValue,
    TelemetryKey::IntegralSum,
    TelemetryKey::MotorTarget,
];

fn readings(raw: i16) -> Vec<TelemetryReading> {
    KEYS.iter()
        .enumerate()
        .map(|(i, key)| TelemetryReading { key: *key, raw: raw.wrapping_add(i as i16) })
        .collect()
}

#[test]
fn encode_length_exact_fields() {
    let sum = LengthEncoding::SumUntilZero;
    assert_eq!(encode_length(sum, 0), Ok(vec![0, 0]));
    assert_eq!(encode_length(sum, 4), Ok(vec![4, 0]));
    assert_eq!(encode_length(sum, 254), Ok(vec![254, 0]));
    assert_eq!(encode_length(sum, 255), Ok(vec![255, 0]));
    assert_eq!(encode_length(sum, 256), Ok(vec![255, 1, 0]));
    assert_eq!(encode_length(sum, 300), Ok(vec![255, 45, 0]));
    assert_eq!(encode_length(sum, 510), Ok(vec![255, 255, 0]));
    assert_eq!(encode_length(sum, 511), Ok(vec![255, 255, 1, 0]));
    let fixed = LengthEncoding::FixedBigEndian;
    assert_eq!(encode_length(fixed, 0), Ok(vec![0, 0]));
    assert_eq!(encode_length(fixed, 4), Ok(vec![0, 4]));
    assert_eq!(encode_length(fixed, 300), Ok(vec![1, 44]));
    assert_eq!(encode_length(fixed, 65535), Ok(vec![255, 255]));
    assert_eq!(encode_length(fixed, 65536), Err(ProtocolError::PayloadTooLarge));
}

#[test]
fn summed_length_field_sums_to_the_length() {
    for length in 0..2000usize {
        let field = encode_length(LengthEncoding::SumUntilZero, length).unwrap();
        assert_eq!(field.iter().map(|b| *b as usize).sum::<usize>(), length);
        assert_eq!(field.last(), Some(&0));
        assert!(field[1..field.len() - 1].iter().all(|b| *b != 0));
    }
}

#[test]
fn encode_response_exact_frames() {
    assert_eq!(
        encode_response(LengthEncoding::SumUntilZero, 3, &[5, 0x03, 0xE8, 0]),
        Ok(vec![0x46, 0x46, 3, 4, 0, 5, 0x03, 0xE8, 0])
    );
    assert_eq!(
        encode_response(LengthEncoding::FixedBigEndian, 3, &[5, 0x03, 0xE8, 0]),
        Ok(vec![0x46, 0x46, 3, 0, 4, 5, 0x03, 0xE8, 0])
    );
    let too_large = vec![0u8; 65536];
    assert_eq!(
        encode_response(LengthEncoding::FixedBigEndian, 3, &too_large),
        Err(ProtocolError::PayloadTooLarge)
    );
    assert_eq!(
        encode_response(LengthEncoding::SumUntilZero, 3, &too_large).map(|f| f.len()),
        Ok(3 + 259 + 65536)
    );
}

#[test]
fn response_round_trip_on_many_lengths() {
    for encoding in ENCODINGS {
        for length in (0..1200usize).chain([65535]) {
            let payload: Vec<u8> = (0..length).map(|i| (i * 7 + 3) as u8).collect();
            let mut stream = encode_response(encoding, 0x46, &payload).unwrap();
            let frame_len = stream.len();
            // no byte before the last completes the frame
            assert_eq!(
                read_frame(encoding, &stream[..frame_len - 1]),
                Err(ProtocolError::TransportError)
            );
            stream.extend_from_slice(&[0x46, 0x46, 0, 1]);
            assert_eq!(read_frame(encoding, &stream), Ok((payload, frame_len)));
        }
    }
}

#[test]
fn reader_completes_exactly_at_the_last_byte_of_a_frame() {
    for encoding in ENCODINGS {
        let payload = encode_status(&readings(-3));
        let frame = encode_response(encoding, 3, &payload).unwrap();
        let mut reader = FrameReader::new(encoding);
        for (i, byte) in frame.iter().enumerate() {
            let event = reader.accept(*byte).unwrap();
            if i + 1 == frame.len() {
                assert_eq!(event, FrameEvent::Complete);
            } else {
                assert_eq!(event, FrameEvent::Consumed);
            }
        }
        assert_eq!(reader.into_payload(), payload);
    }
}

#[test]
fn poll_status_round_trip() {
    for encoding in ENCODINGS {
        for raw in [0i16, 1000, 0x7FFF - 7, -0x8000] {
            let sent = readings(raw);
            let response = encode_response(encoding, 3, &encode_status(&sent)).unwrap();
            let telemetry = poll_status(encoding, &response).ok().unwrap();
            for reading in &sent {
                assert_eq!(telemetry.get(reading.key), Some(reading.raw));
            }
        }
    }
}

#[test]
fn poll_status_skips_a_spurious_byte_before_the_frame() {
    for encoding in ENCODINGS {
        let sent = readings(250);
        let response = encode_response(encoding, 3, &encode_status(&sent)).unwrap();
        for noise in [0x00u8, 0x45, 0x47, 0xFF] {
            let mut stream = vec![noise];
            stream.extend_from_slice(&response);
            let telemetry = poll_status(encoding, &stream).ok().unwrap();
            for reading in &sent {
                assert_eq!(telemetry.get(reading.key), Some(reading.raw));
            }
        }
    }
}

#[test]
fn poll_status_reports_where_it_stops() {
    let sum = LengthEncoding::SumUntilZero;
    assert_eq!(poll_status(sum, &[]).err(), Some(ProtocolError::TransportError));
    assert_eq!(
        poll_status(sum, &[0x46, 0x46, 3, 4, 0, 5, 0, 0]).err(),
        Some(ProtocolError::TransportError)
    );
    assert_eq!(
        poll_status(sum, &[0x46, 0x46, 3, 0, 0]).err(),
        Some(ProtocolError::MalformedStatus)
    );
    assert_eq!(
        poll_status(sum, &[0x46, 0x46, 3, 3, 0, 5, 0, 0]).err(),
        Some(ProtocolError::MalformedStatus)
    );
    assert_eq!(
        poll_status(sum, &[0x46, 0x46, 3, 4, 0, 5, 0, 0, 1]).err(),
        Some(ProtocolError::MalformedStatus)
    );
    assert_eq!(
        poll_status(sum, &[0x46, 0x46, 3, 4, 0, 8, 0, 0, 0]).err(),
        Some(ProtocolError::UnknownTelemetryKey)
    );
}

#[test]
fn poll_status_of_the_gyro_scenarios() {
    let sum = LengthEncoding::SumUntilZero;
    let telemetry = poll_status(sum, &[0x46, 0x46, 3, 4, 0, 5, 0, 0, 0]).ok().unwrap();
    assert_eq!(telemetry.get(TelemetryKey::GyroValue), Some(0));
    let telemetry = poll_status(sum, &[0x46, 0x46, 3, 4, 0, 5, 0x03, 0xE8, 0]).ok().unwrap();
    let reading = telemetry.reading(TelemetryKey::GyroValue).unwrap();
    assert_eq!(f32::from(reading.raw) / f32::from(reading.divisor()), 10.0);
}

#[test]
fn check_ping_accepts_the_echo_and_nothing_else() {
    assert_eq!(check_ping("p i n g g g".as_bytes()), Ok(()));
    assert_eq!(check_ping(&encode_ping()), Ok(()));
    assert_eq!(check_ping(&ping_frame()[5..]), Ok(()));
    assert_eq!(check_ping("p i n g g h".as_bytes()), Err(ProtocolError::EchoMismatch));
    assert_eq!(check_ping("q i n g g g".as_bytes()), Err(ProtocolError::EchoMismatch));
    assert_eq!(check_ping("p i n g g".as_bytes()), Err(ProtocolError::EchoMismatch));
    assert_eq!(check_ping("p i n g g g g".as_bytes()), Err(ProtocolError::EchoMismatch));
    assert_eq!(check_ping(&[]), Err(ProtocolError::EchoMismatch));
}

#[test]
fn request_frames_use_the_fixed_header() {
    assert_eq!(
        read_frame(LengthEncoding::FixedBigEndian, &status_request_frame()),
        Ok((vec![0], 6))
    );
    assert_eq!(
        read_frame(LengthEncoding::FixedBigEndian, &ping_frame()),
        Ok((encode_ping().to_vec(), 16))
    );
}
