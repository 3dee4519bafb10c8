//! Reassembly of a response frame from a byte stream, one byte at a time.
//!
//! The device answers with the two synchronisation bytes, an operation byte, a
//! length field and the payload. Two length fields exist among the protocol's
//! revisions, and the reader is told which one to expect:
//!
//! * [`LengthEncoding::SumUntilZero`]: the first length byte, then further
//!   bytes that are added to it, up to and including a zero byte that ends the
//!   field;
//! * [`LengthEncoding::FixedBigEndian`]: exactly two bytes, high byte first.
//!
//! The reader is a state machine. [`step`] is its transition function on a
//! mathematical model, [`received`] is the state after a whole sequence of
//! bytes, and [`FrameReader::accept`] is the executable transition.

use vstd::prelude::*;
use crate::codec::HEADER_BYTE;
use crate::datatypes::ProtocolError;

verus! {

/// How a response header spells the length of its payload.
#[derive(Clone, Copy, Debug, PartialEq, Eq, Structural)]
pub enum LengthEncoding {
    /// First length byte plus every following byte, ended by a zero byte.
    SumUntilZero,
    /// Two bytes, high byte first.
    FixedBigEndian,
}

/// Where in a frame the reader stands.
#[derive(Clone, Copy, Debug, PartialEq, Eq, Structural)]
pub enum FramePhase {
    /// Waiting for the first synchronisation byte.
    SyncScan,
    /// First synchronisation byte seen, waiting for the second.
    SyncScanSecond,
    /// Waiting for the operation byte, which is read and dropped.
    OpByte,
    /// Waiting for the first byte of the length field.
    LengthFirstByte,
    /// Inside the length field, after its first byte.
    LengthContinuation,
    /// Length known, payload bytes still missing.
    PayloadCollect,
    /// The whole payload has been collected.
    Complete,
}

/// What one byte did to the reader.
#[derive(Clone, Copy, Debug, PartialEq, Eq, Structural)]
pub enum FrameEvent {
    /// The byte stood where a synchronisation byte was due and was none: it
    /// was dropped and the reader did not move.
    Skipped,
    /// The byte was taken into the frame, which is not complete yet.
    Consumed,
    /// The frame is complete. A complete reader takes no further bytes.
    Complete,
}

/// Mathematical state of a reader.
pub struct FrameModel {
    pub encoding: LengthEncoding,
    pub phase: FramePhase,
    /// Payload length announced so far; final from `PayloadCollect` on.
    pub length: nat,
    /// Payload bytes collected so far.
    pub payload: Seq<u8>,
}

impl FrameModel {
    /// What holds of every state that a reader can reach: before the payload
    /// phase nothing is collected, during it less than the announced length,
    /// and a complete frame holds exactly the announced length.
    pub open spec fn wf(self) -> bool {
        match self.phase {
            FramePhase::SyncScan | FramePhase::SyncScanSecond | FramePhase::OpByte
            | FramePhase::LengthFirstByte => self.length == 0 && self.payload.len() == 0,
            FramePhase::LengthContinuation => self.payload.len() == 0,
            FramePhase::PayloadCollect => self.payload.len() < self.length,
            FramePhase::Complete => self.payload.len() == self.length,
        }
    }

    /// The frame is complete.
    pub open spec fn complete(self) -> bool {
        self.phase == FramePhase::Complete
    }

    /// The announced length can be held in a `usize`.
    pub open spec fn fits(self) -> bool {
        self.length <= usize::MAX
    }
}

/// State of a reader that has seen no byte.
pub open spec fn initial(encoding: LengthEncoding) -> FrameModel {
    FrameModel { encoding, phase: FramePhase::SyncScan, length: 0, payload: Seq::empty() }
}

/// State once the length field has ended with `length`: complete at once if
/// no payload is announced, collecting otherwise.
pub open spec fn length_settled(m: FrameModel, length: nat) -> FrameModel {
    FrameModel {
        phase: if length == 0 {
            FramePhase::Complete
        } else {
            FramePhase::PayloadCollect
        },
        length,
        ..m
    }
}

/// The transition function: the state after `byte` arrives in state `m`.
pub open spec fn step(m: FrameModel, byte: u8) -> FrameModel {
    match m.phase {
        FramePhase::SyncScan => if byte == HEADER_BYTE {
            FrameModel { phase: FramePhase::SyncScanSecond, ..m }
        } else {
            m
        },
        FramePhase::SyncScanSecond => if byte == HEADER_BYTE {
            FrameModel { phase: FramePhase::OpByte, ..m }
        } else {
            m
        },
        FramePhase::OpByte => FrameModel { phase: FramePhase::LengthFirstByte, ..m },
        FramePhase::LengthFirstByte => match m.encoding {
            LengthEncoding::SumUntilZero => FrameModel {
                phase: FramePhase::LengthContinuation,
                length: byte as nat,
                ..m
            },
            LengthEncoding::FixedBigEndian => FrameModel {
                phase: FramePhase::LengthContinuation,
                length: byte as nat * 256,
                ..m
            },
        },
        FramePhase::LengthContinuation => match m.encoding {
            LengthEncoding::SumUntilZero => if byte == 0 {
                length_settled(m, m.length)
            } else {
                FrameModel { length: m.length + byte as nat, ..m }
            },
            LengthEncoding::FixedBigEndian => length_settled(m, m.length + byte as nat),
        },
        FramePhase::PayloadCollect => {
            let payload = m.payload.push(byte);
            FrameModel {
                phase: if payload.len() == m.length {
                    FramePhase::Complete
                } else {
                    FramePhase::PayloadCollect
                },
                payload,
                ..m
            }
        },
        FramePhase::Complete => m,
    }
}

/// What the reader reports for `byte` arriving in state `m`.
pub open spec fn event_of(m: FrameModel, byte: u8) -> FrameEvent {
    if (m.phase == FramePhase::SyncScan || m.phase == FramePhase::SyncScanSecond) && byte
        != HEADER_BYTE {
        FrameEvent::Skipped
    } else if step(m, byte).complete() {
        FrameEvent::Complete
    } else {
        FrameEvent::Consumed
    }
}

/// The state after the bytes of `stream` have arrived one by one in state `m`.
pub open spec fn run(m: FrameModel, stream: Seq<u8>) -> FrameModel
    decreases stream.len(),
{
    if stream.len() == 0 {
        m
    } else {
        step(run(m, stream.drop_last()), stream.last())
    }
}

/// The state of a fresh reader after the bytes of `stream`.
pub open spec fn received(encoding: LengthEncoding, stream: Seq<u8>) -> FrameModel {
    run(initial(encoding), stream)
}

/// The byte-at-a-time reader of one response frame.
#[derive(Debug)]
pub struct FrameReader {
    encoding: LengthEncoding,
    phase: FramePhase,
    length: usize,
    payload: Vec<u8>,
}

impl View for FrameReader {
    type V = FrameModel;

    closed spec fn view(&self) -> FrameModel {
        FrameModel {
            encoding: self.encoding,
            phase: self.phase,
            length: self.length as nat,
            payload: self.payload@,
        }
    }
}

impl FrameReader {
    /// A reader that has seen no byte.
    pub fn new(encoding: LengthEncoding) -> (reader: FrameReader)
        ensures
            reader@ == initial(encoding),
            reader@.wf(),
    {
        FrameReader { encoding, phase: FramePhase::SyncScan, length: 0, payload: Vec::new() }
    }

    /// The length encoding that the reader expects.
    pub fn encoding(&self) -> (encoding: LengthEncoding)
        ensures
            encoding == self@.encoding,
    {
        self.encoding
    }

    /// Where in the frame the reader stands.
    pub fn phase(&self) -> (phase: FramePhase)
        ensures
            phase == self@.phase,
    {
        self.phase
    }

    /// Whether the frame is complete.
    pub fn is_complete(&self) -> (complete: bool)
        ensures
            complete == self@.complete(),
    {
        match self.phase {
            FramePhase::Complete => true,
            _ => false,
        }
    }

    /// The payload length announced so far.
    pub fn announced_length(&self) -> (length: usize)
        ensures
            length == self@.length,
    {
        self.length
    }

    /// The payload bytes collected so far.
    pub fn payload(&self) -> (payload: &Vec<u8>)
        ensures
            payload@ == self@.payload,
    {
        &self.payload
    }

    /// Gives up the reader for the payload bytes collected so far.
    pub fn into_payload(self) -> (payload: Vec<u8>)
        ensures
            payload@ == self@.payload,
    {
        self.payload
    }

    /// Takes one received byte.
    ///
    /// The reader moves as [`step`] says and reports what the byte did. The one
    /// byte it refuses is a length byte that would carry the announced length
    /// past `usize::MAX`: the reader then stays as it was.
    pub fn accept(&mut self, byte: u8) -> (result: Result<FrameEvent, ProtocolError>)
        ensures
            step(old(self)@, byte).fits() ==> result == Ok::<FrameEvent, ProtocolError>(
                event_of(old(self)@, byte),
            ) && final(self)@ == step(old(self)@, byte),
            !step(old(self)@, byte).fits() ==> result == Err::<FrameEvent, ProtocolError>(
                ProtocolError::PayloadTooLarge,
            ) && final(self)@ == old(self)@,
            old(self)@.wf() ==> final(self)@.wf(),
    {
        match self.phase {
            FramePhase::SyncScan => {
                if byte != HEADER_BYTE {
                    return Ok(FrameEvent::Skipped);
                }
                self.phase = FramePhase::SyncScanSecond;
                Ok(FrameEvent::Consumed)
            },
            FramePhase::SyncScanSecond => {
                if byte != HEADER_BYTE {
                    return Ok(FrameEvent::Skipped);
                }
                self.phase = FramePhase::OpByte;
                Ok(FrameEvent::Consumed)
            },
            FramePhase::OpByte => {
                self.phase = FramePhase::LengthFirstByte;
                Ok(FrameEvent::Consumed)
            },
            FramePhase::LengthFirstByte => {
                match self.encoding {
                    LengthEncoding::SumUntilZero => {
                        self.length = byte as usize;
                    },
                    LengthEncoding::FixedBigEndian => {
                        self.length = (byte as usize) * 256;
                    },
                }
                self.phase = FramePhase::LengthContinuation;
                Ok(FrameEvent::Consumed)
            },
            FramePhase::LengthContinuation => {
                let finished: bool = match self.encoding {
                    LengthEncoding::SumUntilZero => byte == 0,
                    LengthEncoding::FixedBigEndian => true,
                };
                match self.length.checked_add(byte as usize) {
                    Some(length) => {
                        self.length = length;
                    },
                    None => {
                        return Err(ProtocolError::PayloadTooLarge);
                    },
                }
                if !finished {
                    return Ok(FrameEvent::Consumed);
                }
                if self.length == 0 {
                    self.phase = FramePhase::Complete;
                    Ok(FrameEvent::Complete)
                } else {
                    self.phase = FramePhase::PayloadCollect;
                    Ok(FrameEvent::Consumed)
                }
            },
            FramePhase::PayloadCollect => {
                self.payload.push(byte);
                if self.payload.len() == self.length {
                    self.phase = FramePhase::Complete;
                    Ok(FrameEvent::Complete)
                } else {
                    Ok(FrameEvent::Consumed)
                }
            },
            FramePhase::Complete => Ok(FrameEvent::Complete),
        }
    }
}

/// One byte keeps a reachable state reachable.
pub proof fn step_preserves_wf(m: FrameModel, byte: u8)
    requires
        m.wf(),
    ensures
        step(m, byte).wf(),
{
}

/// Running over one byte is one step.
pub proof fn run_single(m: FrameModel, byte: u8)
    ensures
        run(m, seq![byte]) == step(m, byte),
{
    assert(seq![byte].drop_last() =~= Seq::<u8>::empty());
    assert(run(m, Seq::<u8>::empty()) == m);
    assert(seq![byte].last() == byte);
}

/// Running over two streams in a row is running over their concatenation.
pub proof fn run_concat(m: FrameModel, head: Seq<u8>, tail: Seq<u8>)
    ensures
        run(m, head + tail) == run(run(m, head), tail),
    decreases tail.len(),
{
    if tail.len() == 0 {
        assert(head + tail =~= head);
    } else {
        assert((head + tail).drop_last() =~= head + tail.drop_last());
        run_concat(m, head, tail.drop_last());
    }
}

/// Every state that a stream leads to from a reachable state is reachable.
pub proof fn run_preserves_wf(m: FrameModel, stream: Seq<u8>)
    requires
        m.wf(),
    ensures
        run(m, stream).wf(),
    decreases stream.len(),
{
    if stream.len() > 0 {
        run_preserves_wf(m, stream.drop_last());
        step_preserves_wf(run(m, stream.drop_last()), stream.last());
    }
}

/// A complete reader stays as it is, whatever arrives.
pub proof fn complete_is_final(m: FrameModel, stream: Seq<u8>)
    requires
        m.complete(),
    ensures
        run(m, stream) == m,
    decreases stream.len(),
{
    if stream.len() > 0 {
        complete_is_final(m, stream.drop_last());
    }
}

/// A stream never lowers the announced length, never changes the encoding,
/// and adds at most one payload byte per byte of the stream.
pub proof fn run_is_monotone(m: FrameModel, stream: Seq<u8>)
    requires
        m.wf(),
    ensures
        run(m, stream).encoding == m.encoding,
        run(m, stream).length >= m.length,
        run(m, stream).payload.len() <= m.payload.len() + stream.len(),
    decreases stream.len(),
{
    if stream.len() > 0 {
        run_is_monotone(m, stream.drop_last());
        run_preserves_wf(m, stream.drop_last());
    }
}

/// Once a prefix of a stream announces a length that does not fit a `usize`,
/// the whole stream does, and the reader is not complete after it.
proof fn overflow_is_final(encoding: LengthEncoding, stream: Seq<u8>, n: int)
    requires
        0 <= n <= stream.len(),
        stream.len() <= usize::MAX,
        !received(encoding, stream.take(n)).fits(),
    ensures
        !received(encoding, stream).fits(),
        !received(encoding, stream).complete(),
{
    let prefix = stream.take(n);
    let rest = stream.skip(n);
    assert(prefix + rest =~= stream);
    run_concat(initial(encoding), prefix, rest);
    run_preserves_wf(initial(encoding), prefix);
    run_is_monotone(received(encoding, prefix), rest);
    run_preserves_wf(initial(encoding), stream);
    run_is_monotone(initial(encoding), stream);
}

/// Reads one frame from the front of `stream`, as the reader would from a
/// socket that delivers these bytes and then ends.
///
/// On success the result is the payload and the number of bytes that were
/// taken from the stream, the dropped ones included. A stream that ends before
/// the frame does is a transport error.
pub fn read_frame(encoding: LengthEncoding, stream: &[u8]) -> (result: Result<
    (Vec<u8>, usize),
    ProtocolError,
>)
    ensures
        result is Ok <==> received(encoding, stream@).complete(),
        match result {
            Ok((payload, consumed)) => {
                &&& 0 < consumed <= stream@.len()
                &&& received(encoding, stream@.take(consumed as int)).complete()
                &&& forall|n: int|
                    0 <= n < consumed ==> !(#[trigger] received(
                        encoding,
                        stream@.take(n),
                    )).complete()
                &&& payload@ == received(encoding, stream@).payload
            },
            Err(error) => error == if received(encoding, stream@).fits() {
                ProtocolError::TransportError
            } else {
                ProtocolError::PayloadTooLarge
            },
        },
{
    let mut reader = FrameReader::new(encoding);
    let mut i: usize = 0;
    proof {
        assert(stream@.take(0) =~= Seq::<u8>::empty());
    }
    while i < stream.len()
        invariant
            i <= stream@.len(),
            reader@ == received(encoding, stream@.take(i as int)),
            reader@.wf(),
            forall|n: int|
                0 <= n <= i ==> !(#[trigger] received(encoding, stream@.take(n))).complete(),
        decreases stream@.len() - i,
    {
        let byte: u8 = stream[i];
        proof {
            let next = stream@.take(i + 1);
            assert(next.drop_last() =~= stream@.take(i as int));
            assert(next.last() == byte);
            if step(reader@, byte).fits() {
                if step(reader@, byte).complete() {
                    let rest = stream@.skip(i + 1);
                    assert(next + rest =~= stream@);
                    run_concat(initial(encoding), next, rest);
                    complete_is_final(received(encoding, next), rest);
                }
            } else {
                overflow_is_final(encoding, stream@, i + 1);
            }
        }
        match reader.accept(byte) {
            Err(error) => {
                return Err(error);
            },
            Ok(FrameEvent::Complete) => {
                return Ok((reader.into_payload(), i + 1));
            },
            Ok(_) => {},
        }
        i += 1;
    }
    proof {
        assert(stream@.take(i as int) =~= stream@);
    }
    Err(ProtocolError::TransportError)
}

/// A byte that is no synchronisation byte, arriving where the frame should
/// start, changes nothing: the stream behind it is read as if it came first,
/// one byte later.
pub proof fn leading_noise_is_skipped(encoding: LengthEncoding, noise: u8, stream: Seq<u8>)
    requires
        noise != HEADER_BYTE,
    ensures
        received(encoding, seq![noise] + stream) == received(encoding, stream),
        forall|n: int|
            0 <= n <= stream.len() ==> #[trigger] received(
                encoding,
                (seq![noise] + stream).take(n + 1),
            ) == received(encoding, stream.take(n)),
{
    run_single(initial(encoding), noise);
    run_concat(initial(encoding), seq![noise], stream);
    assert forall|n: int| 0 <= n <= stream.len() implies #[trigger] received(
        encoding,
        (seq![noise] + stream).take(n + 1),
    ) == received(encoding, stream.take(n)) by {
        assert((seq![noise] + stream).take(n + 1) =~= seq![noise] + stream.take(n));
        run_concat(initial(encoding), seq![noise], stream.take(n));
    }
}

/// The same holds of a stray byte between the two synchronisation bytes.
pub proof fn noise_between_sync_bytes_is_skipped(
    encoding: LengthEncoding,
    noise: u8,
    stream: Seq<u8>,
)
    requires
        noise != HEADER_BYTE,
    ensures
        received(encoding, seq![HEADER_BYTE, noise] + stream) == received(
            encoding,
            seq![HEADER_BYTE] + stream,
        ),
{
    let m = initial(encoding);
    run_single(m, HEADER_BYTE);
    run_single(step(m, HEADER_BYTE), noise);
    assert(seq![HEADER_BYTE, noise] =~= seq![HEADER_BYTE] + seq![noise]);
    run_concat(m, seq![HEADER_BYTE], seq![noise]);
    run_concat(m, seq![HEADER_BYTE, noise], stream);
    run_concat(m, seq![HEADER_BYTE], stream);
}

/// The bytes after the first length byte that announce `rest` more payload
/// bytes in the summed encoding: bytes of 255 while that many are left, the
/// remainder if there is one, and the closing zero.
pub open spec fn sum_tail(rest: nat) -> Seq<u8>
    decreases rest,
{
    if rest == 0 {
        seq![0u8]
    } else if rest >= 255 {
        seq![255u8] + sum_tail((rest - 255) as nat)
    } else {
        seq![rest as u8, 0u8]
    }
}

/// A length field that announces `length` payload bytes.
pub open spec fn length_field(encoding: LengthEncoding, length: nat) -> Seq<u8> {
    match encoding {
        LengthEncoding::SumUntilZero => if length >= 255 {
            seq![255u8] + sum_tail((length - 255) as nat)
        } else {
            seq![length as u8] + sum_tail(0)
        },
        LengthEncoding::FixedBigEndian => seq![(length / 256) as u8, (length % 256) as u8],
    }
}

/// Whether a length field of the encoding can announce `length`.
pub open spec fn encodable(encoding: LengthEncoding, length: nat) -> bool {
    encoding == LengthEncoding::FixedBigEndian ==> length <= 65535
}

/// A response frame as the device sends it: synchronisation bytes, operation
/// byte, length field, payload.
pub open spec fn response_bytes(encoding: LengthEncoding, operation: u8, payload: Seq<u8>) -> Seq<
    u8,
> {
    seq![HEADER_BYTE, HEADER_BYTE, operation] + length_field(encoding, payload.len()) + payload
}

/// Writes a length field that announces `length` payload bytes. The fixed
/// encoding cannot announce more than 65535.
pub fn encode_length(encoding: LengthEncoding, length: usize) -> (result: Result<
    Vec<u8>,
    ProtocolError,
>)
    ensures
        encodable(encoding, length as nat) ==> result is Ok && result->Ok_0@ == length_field(
            encoding,
            length as nat,
        ),
        !encodable(encoding, length as nat) ==> result == Err::<Vec<u8>, ProtocolError>(
            ProtocolError::PayloadTooLarge,
        ),
{
    let mut field: Vec<u8> = Vec::new();
    match encoding {
        LengthEncoding::FixedBigEndian => {
            if length > 65535 {
                return Err(ProtocolError::PayloadTooLarge);
            }
            field.push((length / 256) as u8);
            field.push((length % 256) as u8);
            assert(field@ =~= length_field(encoding, length as nat));
        },
        LengthEncoding::SumUntilZero => {
            let first: u8 = if length >= 255 {
                255
            } else {
                length as u8
            };
            field.push(first);
            let mut rest: usize = length - first as usize;
            while rest >= 255
                invariant
                    field@ + sum_tail(rest as nat) == length_field(encoding, length as nat),
                decreases rest,
            {
                proof {
                    assert(field@.push(255u8) + sum_tail((rest - 255) as nat) =~= field@
                        + sum_tail(rest as nat));
                }
                field.push(255);
                rest = rest - 255;
            }
            let ghost before = field@;
            if rest > 0 {
                field.push(rest as u8);
            }
            field.push(0);
            assert(field@ =~= before + sum_tail(rest as nat));
        },
    }
    Ok(field)
}

/// Builds a response frame as the device sends it.
pub fn encode_response(encoding: LengthEncoding, operation: u8, payload: &[u8]) -> (result: Result<
    Vec<u8>,
    ProtocolError,
>)
    ensures
        encodable(encoding, payload@.len()) ==> result is Ok && result->Ok_0@ == response_bytes(
            encoding,
            operation,
            payload@,
        ),
        !encodable(encoding, payload@.len()) ==> result == Err::<Vec<u8>, ProtocolError>(
            ProtocolError::PayloadTooLarge,
        ),
{
    match encode_length(encoding, payload.len()) {
        Ok(field) => {
            let mut bytes: Vec<u8> = Vec::new();
            bytes.push(HEADER_BYTE);
            bytes.push(HEADER_BYTE);
            bytes.push(operation);
            assert(bytes@ =~= seq![HEADER_BYTE, HEADER_BYTE, operation]);
            bytes.extend_from_slice(field.as_slice());
            bytes.extend_from_slice(payload);
            Ok(bytes)
        },
        Err(error) => Err(error),
    }
}

/// The state of a collecting reader after bytes that do not overrun the
/// announced length: they are appended, and the frame is complete exactly when
/// the length is reached.
proof fn run_collects(m: FrameModel, bytes: Seq<u8>)
    requires
        m.phase == FramePhase::PayloadCollect,
        m.payload.len() < m.length,
        m.payload.len() + bytes.len() <= m.length,
    ensures
        run(m, bytes) == (FrameModel {
            phase: if m.payload.len() + bytes.len() == m.length {
                FramePhase::Complete
            } else {
                FramePhase::PayloadCollect
            },
            payload: m.payload + bytes,
            ..m
        }),
    decreases bytes.len(),
{
    if bytes.len() == 0 {
        assert(m.payload + bytes =~= m.payload);
    } else {
        run_collects(m, bytes.drop_last());
        assert((m.payload + bytes.drop_last()).push(bytes.last()) =~= m.payload + bytes);
    }
}

/// The state of a reader inside a summed length field after the bytes that
/// announce `rest` more: the length is settled at the sum, and just before the
/// closing zero it was not.
proof fn run_sum_tail(m: FrameModel, rest: nat)
    requires
        m.encoding == LengthEncoding::SumUntilZero,
        m.phase == FramePhase::LengthContinuation,
    ensures
        run(m, sum_tail(rest)) == length_settled(m, m.length + rest),
        run(m, sum_tail(rest).drop_last()) == (FrameModel { length: m.length + rest, ..m }),
        sum_tail(rest).len() > 0,
    decreases rest,
{
    if rest == 0 {
        run_single(m, 0u8);
        assert(sum_tail(rest).drop_last() =~= Seq::<u8>::empty());
        assert(run(m, Seq::<u8>::empty()) == m);
    } else if rest >= 255 {
        let next = step(m, 255u8);
        let tail = sum_tail((rest - 255) as nat);
        run_sum_tail(next, (rest - 255) as nat);
        run_single(m, 255u8);
        run_concat(m, seq![255u8], tail);
        assert(sum_tail(rest).drop_last() =~= seq![255u8] + tail.drop_last());
        run_concat(m, seq![255u8], tail.drop_last());
    } else {
        let byte = rest as u8;
        run_single(m, byte);
        run_single(step(m, byte), 0u8);
        assert(sum_tail(rest) =~= seq![byte] + seq![0u8]);
        run_concat(m, seq![byte], seq![0u8]);
        assert(sum_tail(rest).drop_last() =~= seq![byte]);
    }
}

/// The state of a reader that waits for a length field, after a length field
/// that announces `length`: the length is settled, and one byte earlier it was
/// not.
proof fn run_length_field(m: FrameModel, length: nat)
    requires
        m.phase == FramePhase::LengthFirstByte,
        encodable(m.encoding, length),
    ensures
        run(m, length_field(m.encoding, length)) == length_settled(m, length),
        !run(m, length_field(m.encoding, length).drop_last()).complete(),
        length_field(m.encoding, length).len() > 0,
{
    let field = length_field(m.encoding, length);
    match m.encoding {
        LengthEncoding::SumUntilZero => {
            let first: u8 = if length >= 255 {
                255u8
            } else {
                length as u8
            };
            let rest: nat = (length - first) as nat;
            let tail = sum_tail(rest);
            assert(field =~= seq![first] + tail);
            run_single(m, first);
            run_sum_tail(step(m, first), rest);
            run_concat(m, seq![first], tail);
            assert(field.drop_last() =~= seq![first] + tail.drop_last());
            run_concat(m, seq![first], tail.drop_last());
        },
        LengthEncoding::FixedBigEndian => {
            let hi = (length / 256) as u8;
            let lo = (length % 256) as u8;
            run_single(m, hi);
            run_single(step(m, hi), lo);
            assert(field =~= seq![hi] + seq![lo]);
            run_concat(m, seq![hi], seq![lo]);
            assert(field.drop_last() =~= seq![hi]);
        },
    }
}

/// A fresh reader that is fed a response frame is complete at the frame's last
/// byte and at no byte before it, and holds the frame's payload. Bytes that
/// follow the frame change nothing.
pub proof fn response_round_trip(
    encoding: LengthEncoding,
    operation: u8,
    payload: Seq<u8>,
    trailing: Seq<u8>,
)
    requires
        encodable(encoding, payload.len()),
    ensures
        received(encoding, response_bytes(encoding, operation, payload)).complete(),
        received(encoding, response_bytes(encoding, operation, payload)).payload == payload,
        forall|n: int|
            0 <= n < response_bytes(encoding, operation, payload).len() ==> !(#[trigger] received(
                encoding,
                response_bytes(encoding, operation, payload).take(n),
            )).complete(),
        received(encoding, response_bytes(encoding, operation, payload) + trailing) == received(
            encoding,
            response_bytes(encoding, operation, payload),
        ),
{
    let start = initial(encoding);
    let sync = seq![HEADER_BYTE, HEADER_BYTE, operation];
    let field = length_field(encoding, payload.len());
    let frame = response_bytes(encoding, operation, payload);

    // the three bytes before the length field
    run_single(start, HEADER_BYTE);
    let s1 = step(start, HEADER_BYTE);
    run_single(s1, HEADER_BYTE);
    let s2 = step(s1, HEADER_BYTE);
    run_single(s2, operation);
    let s3 = step(s2, operation);
    assert(sync =~= seq![HEADER_BYTE] + seq![HEADER_BYTE] + seq![operation]);
    run_concat(start, seq![HEADER_BYTE], seq![HEADER_BYTE]);
    run_concat(start, seq![HEADER_BYTE] + seq![HEADER_BYTE], seq![operation]);
    assert(run(start, sync) == s3);

    // the length field
    run_length_field(s3, payload.len());
    run_concat(start, sync, field);
    let settled = length_settled(s3, payload.len());
    assert(run(start, sync + field) == settled);

    // the payload
    run_concat(start, sync + field, payload);
    let before_last = frame.drop_last();
    if payload.len() == 0 {
        assert(frame =~= sync + field);
        assert(run(start, Seq::<u8>::empty()) == start);
        assert(before_last =~= sync + field.drop_last());
        run_concat(start, sync, field.drop_last());
    } else {
        run_collects(settled, payload);
        assert(settled.payload + payload =~= payload);
        assert(before_last =~= (sync + field) + payload.drop_last());
        run_concat(start, sync + field, payload.drop_last());
        run_collects(settled, payload.drop_last());
    }
    assert(!received(encoding, before_last).complete());

    assert forall|n: int| 0 <= n < frame.len() implies !(#[trigger] received(
        encoding,
        frame.take(n),
    )).complete() by {
        if received(encoding, frame.take(n)).complete() {
            let rest = before_last.skip(n);
            assert(frame.take(n) + rest =~= before_last);
            run_concat(start, frame.take(n), rest);
            complete_is_final(received(encoding, frame.take(n)), rest);
        }
    }
    run_concat(start, frame, trailing);
    complete_is_final(received(encoding, frame), trailing);
}

} // verus!
