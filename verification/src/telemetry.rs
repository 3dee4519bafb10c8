//! Decoding of a status payload into telemetry.
//!
//! A status payload is a row of four-byte records: a key, the two bytes of a
//! signed big-endian value, and a zero byte. The device sends integers; the
//! physical reading is the integer divided by the scale of its key, and a
//! reading is kept here as that integer together with its key, so that nothing
//! is rounded.

use std::collections::HashMap;
use vstd::prelude::*;
use crate::codec::{be_i16, be_i16_of_bytes, high_byte, i16_from_be, i16_to_be, low_byte};
use crate::datatypes::{GyroOffsetConvention, ProtocolError, TelemetryKey};

verus! {

broadcast use vstd::std_specs::hash::group_hash_axioms;

/// Number of bytes in one status record.
pub const RECORD_LEN: usize = 4;

/// Number of records in a payload, a last one that is cut short included.
pub open spec fn record_count(payload: Seq<u8>) -> nat {
    ((payload.len() + 3) / 4) as nat
}

/// The key byte of record `i`.
pub open spec fn record_key(payload: Seq<u8>, i: int) -> u8 {
    payload[4 * i]
}

/// The value of record `i`.
pub open spec fn record_value(payload: Seq<u8>, i: int) -> i16 {
    be_i16(payload[4 * i + 1], payload[4 * i + 2]) as i16
}

/// What is wrong with record `i`, if anything: it is cut short or does not
/// end in a zero byte, or else its key is none of the telemetry keys.
pub open spec fn record_fault(payload: Seq<u8>, i: int) -> Option<ProtocolError> {
    if 4 * i + 4 > payload.len() || payload[4 * i + 3] != 0 {
        Some(ProtocolError::MalformedStatus)
    } else if TelemetryKey::of_code(record_key(payload, i)) is None {
        Some(ProtocolError::UnknownTelemetryKey)
    } else {
        None
    }
}

/// The fault of the first faulty record among the first `n`.
pub open spec fn first_fault(payload: Seq<u8>, n: nat) -> Option<ProtocolError>
    decreases n,
{
    if n == 0 {
        None
    } else {
        match first_fault(payload, (n - 1) as nat) {
            Some(error) => Some(error),
            None => record_fault(payload, n - 1),
        }
    }
}

/// The readings of the first `n` records. Where a key occurs more than once,
/// the last record with it counts.
pub open spec fn readings_of(payload: Seq<u8>, n: nat) -> Map<TelemetryKey, i16>
    decreases n,
{
    if n == 0 {
        Map::empty()
    } else {
        readings_of(payload, (n - 1) as nat).insert(
            TelemetryKey::of_code(record_key(payload, n - 1)).unwrap(),
            record_value(payload, n - 1),
        )
    }
}

/// What a status payload decodes to.
///
/// An empty payload and one whose last byte is not zero are malformed.
/// Otherwise the records are taken in order, and the first faulty one decides
/// the error. Without a faulty record the result is the mapping from each key
/// that occurs to its value.
pub open spec fn decoded_status(payload: Seq<u8>) -> Result<Map<TelemetryKey, i16>, ProtocolError> {
    if payload.len() == 0 || payload.last() != 0 {
        Err(ProtocolError::MalformedStatus)
    } else {
        match first_fault(payload, record_count(payload)) {
            Some(error) => Err(error),
            None => Ok(readings_of(payload, record_count(payload))),
        }
    }
}

/// One telemetry reading: the integer that the device sent under a key.
#[derive(Clone, Copy, Debug, PartialEq, Eq, Structural)]
pub struct TelemetryReading {
    pub key: TelemetryKey,
    pub raw: i16,
}

impl TelemetryReading {
    /// The reading in hundredths of its physical unit: exactly one hundred
    /// times the device's integer divided by the scale of the key.
    pub open spec fn spec_hundredths(self) -> int {
        self.raw as int * (100int / self.key.scale())
    }

    /// Name of the reading.
    pub fn name(&self) -> (name: &'static str)
        ensures
            name@ == self.key.name_chars(),
    {
        self.key.name()
    }

    /// Divisor that turns `raw` into the physical reading.
    pub fn divisor(&self) -> (d: i16)
        ensures
            d == self.key.scale(),
    {
        self.key.divisor()
    }

    /// The reading in hundredths of its physical unit where the gyroscope
    /// offset is counted under `convention`: the zero point of the key is
    /// taken off the device's integer before it is scaled.
    pub open spec fn spec_hundredths_under(self, convention: GyroOffsetConvention) -> int {
        (self.raw as int - self.key.zero_point(convention)) * (100int / self.key.scale())
    }

    /// The reading in hundredths of its physical unit where the gyroscope
    /// offset is counted under `convention`.
    pub fn hundredths_under(&self, convention: GyroOffsetConvention) -> (h: i32)
        ensures
            h == self.spec_hundredths_under(convention),
            convention == GyroOffsetConvention::Unbiased ==> h == self.spec_hundredths(),
    {
        let per_unit: i32 = match self.key {
            TelemetryKey::GyroValue | TelemetryKey::MotorTarget => 1,
            TelemetryKey::GyroOffset | TelemetryKey::IntegralSum => 10,
            _ => 100,
        };
        let zero: i32 = self.key.zero(convention) as i32;
        ((self.raw as i32) - zero) * per_unit
    }

    /// The reading in hundredths of its physical unit, the gyroscope offset
    /// counted without a zero point.
    pub fn hundredths(&self) -> (h: i32)
        ensures
            h == self.spec_hundredths(),
            h * self.key.scale() == self.raw as int * 100,
    {
        let per_unit: i32 = match self.key {
            TelemetryKey::GyroValue | TelemetryKey::MotorTarget => 1,
            TelemetryKey::GyroOffset | TelemetryKey::IntegralSum => 10,
            _ => 100,
        };
        (self.raw as i32) * per_unit
    }
}

/// The readings of one status response: a mapping from telemetry key to the
/// integer that the device sent under it.
#[derive(Debug)]
pub struct Telemetry {
    readings: HashMap<u8, i16>,
}

impl View for Telemetry {
    type V = Map<TelemetryKey, i16>;

    closed spec fn view(&self) -> Map<TelemetryKey, i16> {
        Map::new(
            |key: TelemetryKey| self.readings@.contains_key(key.wire_code()),
            |key: TelemetryKey| self.readings@[key.wire_code()],
        )
    }
}

impl Telemetry {
    /// Telemetry without a reading.
    pub fn new() -> (telemetry: Telemetry)
        ensures
            telemetry@ == Map::<TelemetryKey, i16>::empty(),
    {
        let telemetry = Telemetry { readings: HashMap::new() };
        assert(telemetry@ =~= Map::<TelemetryKey, i16>::empty());
        telemetry
    }

    /// Sets the reading of `key`, in place of an earlier one.
    pub fn insert(&mut self, key: TelemetryKey, raw: i16)
        ensures
            final(self)@ == old(self)@.insert(key, raw),
    {
        self.readings.insert(key.code(), raw);
        proof {
            assert forall|other: TelemetryKey| other.wire_code() == key.wire_code() implies other
                == key by {
                TelemetryKey::code_round_trip(other, key.wire_code());
                TelemetryKey::code_round_trip(key, key.wire_code());
            }
            assert(self@ =~= old(self)@.insert(key, raw));
        }
    }

    /// The integer that the device sent under `key`, if it sent one.
    pub fn get(&self, key: TelemetryKey) -> (raw: Option<i16>)
        ensures
            raw == if self@.contains_key(key) {
                Some(self@[key])
            } else {
                None
            },
    {
        match self.readings.get(&key.code()) {
            Some(raw) => Some(*raw),
            None => None,
        }
    }

    /// The reading under `key`, if the device sent one.
    pub fn reading(&self, key: TelemetryKey) -> (reading: Option<TelemetryReading>)
        ensures
            reading == if self@.contains_key(key) {
                Some(TelemetryReading { key, raw: self@[key] })
            } else {
                None
            },
    {
        match self.get(key) {
            Some(raw) => Some(TelemetryReading { key, raw }),
            None => None,
        }
    }
}

/// Up to `n` records, no record is faulty exactly if `first_fault` finds none,
/// and a fault that it finds is the fault of a record before which none is
/// faulty.
pub proof fn first_fault_is_first(payload: Seq<u8>, n: nat)
    ensures
        first_fault(payload, n) is None <==> forall|i: int|
            0 <= i < n ==> record_fault(payload, i) is None,
        first_fault(payload, n) is Some ==> exists|i: int|
            0 <= i < n && record_fault(payload, i) == first_fault(payload, n) && first_fault(
                payload,
                i as nat,
            ) is None,
    decreases n,
{
    if n > 0 {
        first_fault_is_first(payload, (n - 1) as nat);
        if first_fault(payload, (n - 1) as nat) is None {
            if record_fault(payload, n - 1) is Some {
                assert(record_fault(payload, n - 1) == first_fault(payload, n));
            }
        } else {
            let i = choose|i: int|
                0 <= i < n - 1 && record_fault(payload, i) == first_fault(payload, (n - 1) as nat)
                    && first_fault(payload, i as nat) is None;
            assert(0 <= i < n && record_fault(payload, i) == first_fault(payload, n));
        }
    }
}

/// Decodes a status payload.
pub fn decode_status(payload: &[u8]) -> (result: Result<Telemetry, ProtocolError>)
    ensures
        match result {
            Ok(telemetry) => decoded_status(payload@) == Ok::<
                Map<TelemetryKey, i16>,
                ProtocolError,
            >(telemetry@),
            Err(error) => decoded_status(payload@) == Err::<Map<TelemetryKey, i16>, ProtocolError>(
                error,
            ),
        },
{
    let len: usize = payload.len();
    if len == 0 || payload[len - 1] != 0 {
        return Err(ProtocolError::MalformedStatus);
    }
    let mut telemetry = Telemetry::new();
    let mut at: usize = 0;
    let ghost mut done: nat = 0;
    while at < len
        invariant
            len == payload@.len(),
            len > 0,
            payload@.last() == 0,
            at == 4 * done,
            at <= len,
            done <= record_count(payload@),
            first_fault(payload@, done) is None,
            telemetry@ == readings_of(payload@, done),
        decreases len - at,
    {
        if len - at < RECORD_LEN || payload[at + 3] != 0 {
            proof {
                assert(record_fault(payload@, done as int) == Some(ProtocolError::MalformedStatus));
                fault_decides(payload@, done, record_count(payload@));
            }
            return Err(ProtocolError::MalformedStatus);
        }
        let key = match TelemetryKey::from_code(payload[at]) {
            Some(key) => key,
            None => {
                proof {
                    assert(record_fault(payload@, done as int) == Some(
                        ProtocolError::UnknownTelemetryKey,
                    ));
                    fault_decides(payload@, done, record_count(payload@));
                }
                return Err(ProtocolError::UnknownTelemetryKey);
            },
        };
        let raw: i16 = i16_from_be(payload[at + 1], payload[at + 2]);
        telemetry.insert(key, raw);
        proof {
            assert(record_fault(payload@, done as int) is None);
            done = done + 1;
        }
        at = at + RECORD_LEN;
    }
    Ok(telemetry)
}

/// Once the first `n` records are sound and record `n` is faulty, its fault
/// is the first among any greater number of records.
proof fn fault_decides(payload: Seq<u8>, n: nat, total: nat)
    requires
        n < total,
        first_fault(payload, n) is None,
        record_fault(payload, n as int) is Some,
    ensures
        first_fault(payload, total) == record_fault(payload, n as int),
    decreases total,
{
    if total > n + 1 {
        fault_decides(payload, n, (total - 1) as nat);
    }
}

/// The four bytes of the record that carries `reading`.
pub open spec fn record_bytes(reading: TelemetryReading) -> Seq<u8> {
    seq![reading.key.wire_code(), high_byte(reading.raw), low_byte(reading.raw), 0u8]
}

/// The status payload that carries `readings`, one record each, in order.
pub open spec fn status_payload(readings: Seq<TelemetryReading>) -> Seq<u8>
    decreases readings.len(),
{
    if readings.len() == 0 {
        Seq::empty()
    } else {
        status_payload(readings.drop_last()) + record_bytes(readings.last())
    }
}

/// The mapping that a row of readings amounts to: each key with the value of
/// the last reading that has it.
pub open spec fn readings_map(readings: Seq<TelemetryReading>) -> Map<TelemetryKey, i16>
    decreases readings.len(),
{
    if readings.len() == 0 {
        Map::empty()
    } else {
        readings_map(readings.drop_last()).insert(readings.last().key, readings.last().raw)
    }
}

/// Builds the status payload that carries `readings`, as the device does.
pub fn encode_status(readings: &[TelemetryReading]) -> (payload: Vec<u8>)
    ensures
        payload@ == status_payload(readings@),
{
    let mut payload: Vec<u8> = Vec::new();
    let mut i: usize = 0;
    proof {
        assert(readings@.take(0) =~= Seq::<TelemetryReading>::empty());
    }
    while i < readings.len()
        invariant
            i <= readings@.len(),
            payload@ == status_payload(readings@.take(i as int)),
        decreases readings@.len() - i,
    {
        let reading = readings[i];
        let (hi, lo) = i16_to_be(reading.raw);
        proof {
            let next = readings@.take(i + 1);
            assert(next.drop_last() =~= readings@.take(i as int));
            assert(next.last() == reading);
            assert(payload@.push(reading.key.wire_code()).push(hi).push(lo).push(0u8)
                =~= payload@ + record_bytes(reading));
        }
        payload.push(reading.key.code());
        payload.push(hi);
        payload.push(lo);
        payload.push(0);
        i += 1;
    }
    proof {
        assert(readings@.take(i as int) =~= readings@);
    }
    payload
}

/// Shape of an encoded status payload: four bytes for each reading, which are
/// the bytes of its record.
pub proof fn status_payload_shape(readings: Seq<TelemetryReading>, i: int)
    requires
        0 <= i < readings.len(),
    ensures
        status_payload(readings).len() == 4 * readings.len(),
        status_payload(readings).subrange(4 * i, 4 * i + 4) == record_bytes(readings[i]),
    decreases readings.len(),
{
    let front = readings.drop_last();
    let payload = status_payload(readings);
    status_payload_len(readings);
    status_payload_len(front);
    if i < front.len() {
        status_payload_shape(front, i);
        assert(payload.subrange(4 * i, 4 * i + 4) =~= status_payload(front).subrange(
            4 * i,
            4 * i + 4,
        ));
    } else {
        assert(payload.subrange(4 * i, 4 * i + 4) =~= record_bytes(readings[i]));
    }
}

/// An encoded status payload has four bytes for each reading.
pub proof fn status_payload_len(readings: Seq<TelemetryReading>)
    ensures
        status_payload(readings).len() == 4 * readings.len(),
    decreases readings.len(),
{
    if readings.len() > 0 {
        status_payload_len(readings.drop_last());
    }
}

/// Record `i` of an encoded status payload is sound and holds reading `i`.
proof fn encoded_record(readings: Seq<TelemetryReading>, i: int)
    requires
        0 <= i < readings.len(),
    ensures
        record_fault(status_payload(readings), i) is None,
        TelemetryKey::of_code(record_key(status_payload(readings), i)) == Some(readings[i].key),
        record_value(status_payload(readings), i) == readings[i].raw,
        status_payload(readings)[4 * i + 3] == 0,
{
    let payload = status_payload(readings);
    let record = payload.subrange(4 * i, 4 * i + 4);
    status_payload_shape(readings, i);
    assert(record[0] == payload[4 * i]);
    assert(record[1] == payload[4 * i + 1]);
    assert(record[2] == payload[4 * i + 2]);
    assert(record[3] == payload[4 * i + 3]);
    TelemetryKey::code_round_trip(readings[i].key, readings[i].key.wire_code());
    be_i16_of_bytes(readings[i].raw);
}

/// Decoding an encoded status gives back the readings: every key that was
/// sent, with the value of the last reading that had it.
pub proof fn status_round_trip(readings: Seq<TelemetryReading>)
    requires
        readings.len() > 0,
    ensures
        decoded_status(status_payload(readings)) == Ok::<Map<TelemetryKey, i16>, ProtocolError>(
            readings_map(readings),
        ),
{
    let payload = status_payload(readings);
    let n = readings.len();
    status_payload_len(readings);
    encoded_record(readings, n - 1);
    assert(payload.last() == 0);
    assert(record_count(payload) == n);
    assert forall|i: int| 0 <= i < n implies record_fault(payload, i) is None by {
        encoded_record(readings, i);
    }
    first_fault_is_first(payload, n);
    readings_of_encoded(readings, n);
    assert(readings.take(n as int) =~= readings);
}

/// The first `k` records of an encoded status hold the first `k` readings.
proof fn readings_of_encoded(readings: Seq<TelemetryReading>, k: nat)
    requires
        k <= readings.len(),
    ensures
        readings_of(status_payload(readings), k) == readings_map(readings.take(k as int)),
    decreases k,
{
    if k > 0 {
        readings_of_encoded(readings, (k - 1) as nat);
        encoded_record(readings, k - 1);
        let front = readings.take(k as int);
        assert(front.drop_last() =~= readings.take(k - 1));
        assert(front.last() == readings[k - 1]);
    }
}

/// In the mapping of a row of readings, a reading that no later reading
/// overrides is found under its key.
pub proof fn readings_map_holds_last(readings: Seq<TelemetryReading>, i: int)
    requires
        0 <= i < readings.len(),
        forall|j: int| i < j < readings.len() ==> readings[j].key != readings[i].key,
    ensures
        readings_map(readings).contains_key(readings[i].key),
        readings_map(readings)[readings[i].key] == readings[i].raw,
    decreases readings.len(),
{
    let front = readings.drop_last();
    if i < front.len() {
        readings_map_holds_last(front, i);
        assert(readings[readings.len() - 1].key != readings[i].key);
    }
}

/// Every key in the mapping of a row of readings is the key of one of them.
pub proof fn readings_map_key_is_sent(readings: Seq<TelemetryReading>, key: TelemetryKey) -> (j:
    int)
    requires
        readings_map(readings).contains_key(key),
    ensures
        0 <= j < readings.len(),
        readings[j].key == key,
    decreases readings.len(),
{
    if readings.len() == 0 {
        0
    } else if readings.last().key == key {
        readings.len() - 1
    } else {
        readings_map_key_is_sent(readings.drop_last(), key)
    }
}

/// Strict lexicographic order of two texts by code point, which is the order
/// of the strings themselves: `a` comes first if it is shorter and `b` starts
/// with it, or if the two differ first at a place where `a` has the lower
/// character.
pub open spec fn name_precedes(a: Seq<char>, b: Seq<char>) -> bool {
    exists|i: int|
        0 <= i <= a.len() && i <= b.len() && (forall|k: int| 0 <= k < i ==> a[k] == b[k]) && (if i
            == a.len() {
            i < b.len()
        } else {
            i < b.len() && (#[trigger] a[i] as u32) < (b[i] as u32)
        })
}

/// The place of a key when the keys are put in the order of their names.
pub open spec fn name_rank(key: TelemetryKey) -> int {
    match key {
        TelemetryKey::GyroOffset => 0,
        TelemetryKey::GyroValue => 1,
        TelemetryKey::IntegralSum => 2,
        TelemetryKey::MotorTarget => 3,
        TelemetryKey::MotorsEnabled => 4,
        TelemetryKey::PidDerivative => 5,
        TelemetryKey::PidIntegral => 6,
        TelemetryKey::PidProportional => 7,
    }
}

/// A key with a lower rank has the name that comes first.
pub proof fn name_rank_orders_names(a: TelemetryKey, b: TelemetryKey)
    requires
        name_rank(a) < name_rank(b),
    ensures
        name_precedes(a.name_chars(), b.name_chars()),
{
    reveal_strlit("PID Proportional");
    reveal_strlit("PID Integral");
    reveal_strlit("PID Derivative");
    reveal_strlit("Motors Enabled");
    reveal_strlit("Gyro Offset");
    reveal_strlit("Gyro Value");
    reveal_strlit("Integral Sum");
    reveal_strlit("Motor Target");
    let x = a.name_chars();
    let y = b.name_chars();
    let i: int = if x[0] != y[0] {
        0
    } else if x[4] != y[4] {
        4
    } else {
        5
    };
    assert(0 <= i < x.len() && i < y.len());
    assert(forall|k: int| 0 <= k < i ==> x[k] == y[k]);
    assert((x[i] as u32) < (y[i] as u32));
}

/// The order of names is strict: of two texts at most one comes before the
/// other, and none comes before itself.
pub proof fn name_precedes_is_strict(a: Seq<char>, b: Seq<char>)
    requires
        name_precedes(a, b),
    ensures
        !name_precedes(b, a),
        a != b,
{
    let i = choose|i: int|
        0 <= i <= a.len() && i <= b.len() && (forall|k: int| 0 <= k < i ==> a[k] == b[k]) && (if i
            == a.len() {
            i < b.len()
        } else {
            i < b.len() && (#[trigger] a[i] as u32) < (b[i] as u32)
        });
    if name_precedes(b, a) {
        let j = choose|j: int|
            0 <= j <= b.len() && j <= a.len() && (forall|k: int| 0 <= k < j ==> b[k] == a[k]) && (
            if j == b.len() {
                j < a.len()
            } else {
                j < a.len() && (#[trigger] b[j] as u32) < (a[j] as u32)
            });
        if i < j {
            assert(b[i] == a[i]);
        } else if j < i {
            assert(a[j] == b[j]);
        }
        assert(false);
    }
    if a == b {
        if i < a.len() {
            assert((a[i] as u32) < (b[i] as u32));
        }
        assert(false);
    }
}

/// The rank of the keys is the order of their names, no more and no less.
pub proof fn name_rank_is_name_order(a: TelemetryKey, b: TelemetryKey)
    ensures
        name_rank(a) < name_rank(b) <==> name_precedes(a.name_chars(), b.name_chars()),
{
    if name_rank(a) < name_rank(b) {
        name_rank_orders_names(a, b);
    } else if name_precedes(a.name_chars(), b.name_chars()) {
        name_precedes_is_strict(a.name_chars(), b.name_chars());
        if name_rank(b) < name_rank(a) {
            name_rank_orders_names(b, a);
        } else {
            assert(a == b);
        }
    }
}

impl Telemetry {
    /// The readings in the order of their names, as they are shown.
    ///
    /// The list holds each reading once and nothing else, and each name in it
    /// comes before the next.
    pub fn sorted_readings(&self) -> (list: Vec<TelemetryReading>)
        ensures
            forall|i: int|
                0 <= i < list@.len() ==> self@.contains_key(#[trigger] list@[i].key) && list@[i].raw
                    == self@[list@[i].key],
            forall|key: TelemetryKey|
                self@.contains_key(key) ==> exists|i: int|
                    0 <= i < list@.len() && #[trigger] list@[i].key == key,
            forall|i: int, j: int|
                0 <= i < j < list@.len() ==> name_precedes(
                    #[trigger] list@[i].key.name_chars(),
                    #[trigger] list@[j].key.name_chars(),
                ),
    {
        let order: [TelemetryKey; 8] = [
            TelemetryKey::GyroOffset,
            TelemetryKey::GyroValue,
            TelemetryKey::IntegralSum,
            TelemetryKey::MotorTarget,
            TelemetryKey::MotorsEnabled,
            TelemetryKey::PidDerivative,
            TelemetryKey::PidIntegral,
            TelemetryKey::PidProportional,
        ];
        let mut list: Vec<TelemetryReading> = Vec::new();
        let mut rank: usize = 0;
        while rank < 8
            invariant
                rank <= 8,
                forall|r: int| 0 <= r < 8 ==> name_rank(#[trigger] order@[r]) == r,
                forall|i: int|
                    0 <= i < list@.len() ==> {
                        &&& self@.contains_key(#[trigger] list@[i].key)
                        &&& list@[i].raw == self@[list@[i].key]
                        &&& name_rank(list@[i].key) < rank
                    },
                forall|key: TelemetryKey|
                    self@.contains_key(key) && name_rank(key) < rank ==> exists|i: int|
                        0 <= i < list@.len() && #[trigger] list@[i].key == key,
                forall|i: int, j: int|
                    0 <= i < j < list@.len() ==> name_rank(#[trigger] list@[i].key) < name_rank(
                        #[trigger] list@[j].key,
                    ),
            decreases 8 - rank,
        {
            let key = order[rank];
            let ghost before = list@;
            match self.get(key) {
                Some(raw) => {
                    list.push(TelemetryReading { key, raw });
                    proof {
                        let at = before.len() as int;
                        assert(list@[at].key == key);
                        assert forall|other: TelemetryKey|
                            self@.contains_key(other) && name_rank(other) < rank + 1 implies exists|
                            i: int,
                        |
                            0 <= i < list@.len() && #[trigger] list@[i].key == other by {
                            if name_rank(other) < rank {
                                let i = choose|i: int|
                                    0 <= i < before.len() && #[trigger] before[i].key == other;
                                assert(list@[i].key == other);
                            } else {
                                assert(other == key);
                            }
                        }
                    }
                },
                None => {
                    proof {
                        assert forall|other: TelemetryKey|
                            self@.contains_key(other) && name_rank(other) < rank + 1 implies exists|
                            i: int,
                        |
                            0 <= i < list@.len() && #[trigger] list@[i].key == other by {
                            if name_rank(other) >= rank {
                                assert(other == key);
                            }
                        }
                    }
                },
            }
            rank += 1;
        }
        proof {
            assert forall|i: int, j: int| 0 <= i < j < list@.len() implies name_precedes(
                #[trigger] list@[i].key.name_chars(),
                #[trigger] list@[j].key.name_chars(),
            ) by {
                name_rank_orders_names(list@[i].key, list@[j].key);
            }
        }
        list
    }
}

} // verus!
