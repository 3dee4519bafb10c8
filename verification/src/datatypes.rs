//! The closed code spaces of the protocol: operations, update targets and
//! telemetry keys, and the errors the protocol layer reports.

use vstd::prelude::*;

verus! {

/// Purpose of a frame, carried as the third byte of every header.
#[derive(Clone, Copy, Debug, PartialEq, Eq, Structural)]
pub enum EspOperation {
    Message,
    Update,
    Ping,
    StatusRequest,
}

impl EspOperation {
    /// The byte that stands for the operation on the wire.
    pub open spec fn wire_code(self) -> u8 {
        match self {
            EspOperation::Message => 0,
            EspOperation::Update => 1,
            EspOperation::Ping => 2,
            EspOperation::StatusRequest => 3,
        }
    }

    /// The operation that a wire byte stands for, if any.
    pub open spec fn of_code(code: u8) -> Option<EspOperation> {
        if code == 0 {
            Some(EspOperation::Message)
        } else if code == 1 {
            Some(EspOperation::Update)
        } else if code == 2 {
            Some(EspOperation::Ping)
        } else if code == 3 {
            Some(EspOperation::StatusRequest)
        } else {
            None
        }
    }

    /// Wire byte of the operation.
    pub fn code(self) -> (c: u8)
        ensures
            c == self.wire_code(),
    {
        match self {
            EspOperation::Message => 0,
            EspOperation::Update => 1,
            EspOperation::Ping => 2,
            EspOperation::StatusRequest => 3,
        }
    }

    /// Reads an operation back from its wire byte; `None` for a byte outside
    /// the four defined codes.
    pub fn from_code(code: u8) -> (op: Option<EspOperation>)
        ensures
            op == EspOperation::of_code(code),
    {
        match code {
            0 => Some(EspOperation::Message),
            1 => Some(EspOperation::Update),
            2 => Some(EspOperation::Ping),
            3 => Some(EspOperation::StatusRequest),
            _ => None,
        }
    }

    /// Every operation is recovered from its own wire byte, and a byte that
    /// names an operation is that operation's wire byte.
    pub proof fn code_round_trip(op: EspOperation, code: u8)
        ensures
            EspOperation::of_code(op.wire_code()) == Some(op),
            EspOperation::of_code(code) == Some(op) <==> op.wire_code() == code,
    {
    }
}

/// Device variable that an `Update` frame sets.
///
/// The codes 3 and 4 are reserved for velocity targets and name no variable.
/// The code space overlaps the telemetry keys without being the same mapping:
/// see [`TelemetryKey`].
#[derive(Clone, Copy, Debug, PartialEq, Eq, Structural)]
pub enum VariableUpdateTarget {
    PidProportional,
    PidIntegral,
    PidDerivative,
    MotorEnabled,
    GyroOffset,
}

impl VariableUpdateTarget {
    /// The byte that stands for the target on the wire.
    pub open spec fn wire_code(self) -> u8 {
        match self {
            VariableUpdateTarget::PidProportional => 0,
            VariableUpdateTarget::PidIntegral => 1,
            VariableUpdateTarget::PidDerivative => 2,
            VariableUpdateTarget::MotorEnabled => 5,
            VariableUpdateTarget::GyroOffset => 6,
        }
    }

    /// The target that a wire byte stands for, if any.
    pub open spec fn of_code(code: u8) -> Option<VariableUpdateTarget> {
        if code == 0 {
            Some(VariableUpdateTarget::PidProportional)
        } else if code == 1 {
            Some(VariableUpdateTarget::PidIntegral)
        } else if code == 2 {
            Some(VariableUpdateTarget::PidDerivative)
        } else if code == 5 {
            Some(VariableUpdateTarget::MotorEnabled)
        } else if code == 6 {
            Some(VariableUpdateTarget::GyroOffset)
        } else {
            None
        }
    }

    /// Wire byte of the target.
    pub fn code(self) -> (c: u8)
        ensures
            c == self.wire_code(),
    {
        match self {
            VariableUpdateTarget::PidProportional => 0,
            VariableUpdateTarget::PidIntegral => 1,
            VariableUpdateTarget::PidDerivative => 2,
            VariableUpdateTarget::MotorEnabled => 5,
            VariableUpdateTarget::GyroOffset => 6,
        }
    }

    /// Reads a target back from its wire byte; `None` for the reserved codes
    /// 3 and 4 and for every byte above 6.
    pub fn from_code(code: u8) -> (target: Option<VariableUpdateTarget>)
        ensures
            target == VariableUpdateTarget::of_code(code),
    {
        match code {
            0 => Some(VariableUpdateTarget::PidProportional),
            1 => Some(VariableUpdateTarget::PidIntegral),
            2 => Some(VariableUpdateTarget::PidDerivative),
            5 => Some(VariableUpdateTarget::MotorEnabled),
            6 => Some(VariableUpdateTarget::GyroOffset),
            _ => None,
        }
    }

    /// Every target is recovered from its own wire byte, and a byte that names
    /// a target is that target's wire byte.
    pub proof fn code_round_trip(target: VariableUpdateTarget, code: u8)
        ensures
            VariableUpdateTarget::of_code(target.wire_code()) == Some(target),
            VariableUpdateTarget::of_code(code) == Some(target) <==> target.wire_code() == code,
    {
    }
}

/// Name of a reading in a status response.
///
/// The keys fill the codes 0 to 7. They are a mapping of their own: the codes
/// 3 and 4 name telemetry but no update target, and the codes 5 and 6 name
/// other things here than among the update targets.
#[derive(Clone, Copy, Debug, PartialEq, Eq, Structural)]
pub enum TelemetryKey {
    PidProportional,
    PidIntegral,
    PidDerivative,
    MotorsEnabled,
    GyroOffset,
    GyroValue,
    IntegralSum,
    MotorTarget,
}

impl TelemetryKey {
    /// The byte that stands for the key on the wire.
    pub open spec fn wire_code(self) -> u8 {
        match self {
            TelemetryKey::PidProportional => 0,
            TelemetryKey::PidIntegral => 1,
            TelemetryKey::PidDerivative => 2,
            TelemetryKey::MotorsEnabled => 3,
            TelemetryKey::GyroOffset => 4,
            TelemetryKey::GyroValue => 5,
            TelemetryKey::IntegralSum => 6,
            TelemetryKey::MotorTarget => 7,
        }
    }

    /// The key that a wire byte stands for, if any.
    pub open spec fn of_code(code: u8) -> Option<TelemetryKey> {
        if code == 0 {
            Some(TelemetryKey::PidProportional)
        } else if code == 1 {
            Some(TelemetryKey::PidIntegral)
        } else if code == 2 {
            Some(TelemetryKey::PidDerivative)
        } else if code == 3 {
            Some(TelemetryKey::MotorsEnabled)
        } else if code == 4 {
            Some(TelemetryKey::GyroOffset)
        } else if code == 5 {
            Some(TelemetryKey::GyroValue)
        } else if code == 6 {
            Some(TelemetryKey::IntegralSum)
        } else if code == 7 {
            Some(TelemetryKey::MotorTarget)
        } else {
            None
        }
    }

    /// The name under which the reading is shown and relayed.
    pub open spec fn name_chars(self) -> Seq<char> {
        match self {
            TelemetryKey::PidProportional => "PID Proportional"@,
            TelemetryKey::PidIntegral => "PID Integral"@,
            TelemetryKey::PidDerivative => "PID Derivative"@,
            TelemetryKey::MotorsEnabled => "Motors Enabled"@,
            TelemetryKey::GyroOffset => "Gyro Offset"@,
            TelemetryKey::GyroValue => "Gyro Value"@,
            TelemetryKey::IntegralSum => "Integral Sum"@,
            TelemetryKey::MotorTarget => "Motor Target"@,
        }
    }

    /// The number by which the device's integer is divided to give the
    /// reading in its physical unit: 100 for the gyroscope value and the motor
    /// target, 10 for the gyroscope offset and the integral sum, 1 for the
    /// rest. Where the gyroscope offset has a zero point, that is taken off
    /// first: see [`GyroOffsetConvention`].
    pub open spec fn scale(self) -> int {
        match self {
            TelemetryKey::GyroValue | TelemetryKey::MotorTarget => 100,
            TelemetryKey::GyroOffset | TelemetryKey::IntegralSum => 10,
            _ => 1,
        }
    }

    /// Wire byte of the key.
    pub fn code(self) -> (c: u8)
        ensures
            c == self.wire_code(),
    {
        match self {
            TelemetryKey::PidProportional => 0,
            TelemetryKey::PidIntegral => 1,
            TelemetryKey::PidDerivative => 2,
            TelemetryKey::MotorsEnabled => 3,
            TelemetryKey::GyroOffset => 4,
            TelemetryKey::GyroValue => 5,
            TelemetryKey::IntegralSum => 6,
            TelemetryKey::MotorTarget => 7,
        }
    }

    /// Reads a key back from its wire byte; `None` for every byte above 7.
    pub fn from_code(code: u8) -> (key: Option<TelemetryKey>)
        ensures
            key == TelemetryKey::of_code(code),
    {
        match code {
            0 => Some(TelemetryKey::PidProportional),
            1 => Some(TelemetryKey::PidIntegral),
            2 => Some(TelemetryKey::PidDerivative),
            3 => Some(TelemetryKey::MotorsEnabled),
            4 => Some(TelemetryKey::GyroOffset),
            5 => Some(TelemetryKey::GyroValue),
            6 => Some(TelemetryKey::IntegralSum),
            7 => Some(TelemetryKey::MotorTarget),
            _ => None,
        }
    }

    /// Name of the reading.
    pub fn name(self) -> (name: &'static str)
        ensures
            name@ == self.name_chars(),
    {
        match self {
            TelemetryKey::PidProportional => "PID Proportional",
            TelemetryKey::PidIntegral => "PID Integral",
            TelemetryKey::PidDerivative => "PID Derivative",
            TelemetryKey::MotorsEnabled => "Motors Enabled",
            TelemetryKey::GyroOffset => "Gyro Offset",
            TelemetryKey::GyroValue => "Gyro Value",
            TelemetryKey::IntegralSum => "Integral Sum",
            TelemetryKey::MotorTarget => "Motor Target",
        }
    }

    /// Divisor that turns the device's integer into the physical reading.
    pub fn divisor(self) -> (d: i16)
        ensures
            d == self.scale(),
    {
        match self {
            TelemetryKey::GyroValue | TelemetryKey::MotorTarget => 100,
            TelemetryKey::GyroOffset | TelemetryKey::IntegralSum => 10,
            _ => 1,
        }
    }

    /// Every key is recovered from its own wire byte, a byte that names a key
    /// is that key's wire byte, and the bytes that name a key are 0 to 7.
    pub proof fn code_round_trip(key: TelemetryKey, code: u8)
        ensures
            TelemetryKey::of_code(key.wire_code()) == Some(key),
            TelemetryKey::of_code(code) == Some(key) <==> key.wire_code() == code,
            TelemetryKey::of_code(code) is Some <==> code <= 7,
    {
    }
}

/// How the device counts the gyroscope offset that it reports.
///
/// Both conventions divide by ten. They differ in where zero lies, and the
/// firmware decides which one holds.
#[derive(Clone, Copy, Debug, PartialEq, Eq, Structural)]
pub enum GyroOffsetConvention {
    /// The integer is the offset in tenths of a degree.
    Unbiased,
    /// The integer 128 stands for an offset of zero.
    ZeroPoint128,
}

impl TelemetryKey {
    /// The integer that stands for zero under the key.
    pub open spec fn zero_point(self, convention: GyroOffsetConvention) -> int {
        if self == TelemetryKey::GyroOffset && convention == GyroOffsetConvention::ZeroPoint128 {
            128
        } else {
            0
        }
    }

    /// The integer that stands for zero under the key: 128 for the gyroscope
    /// offset under the convention that has a zero point, else 0.
    pub fn zero(self, convention: GyroOffsetConvention) -> (zero: i16)
        ensures
            zero == self.zero_point(convention),
    {
        match (self, convention) {
            (TelemetryKey::GyroOffset, GyroOffsetConvention::ZeroPoint128) => 128,
            _ => 0,
        }
    }
}

/// What the protocol layer reports when an exchange cannot be completed.
#[derive(Clone, Copy, Debug, PartialEq, Eq, Structural)]
pub enum ProtocolError {
    /// The byte stream ended, or a read failed, before the exchange was over.
    TransportError,
    /// A status payload is empty, is cut short, or holds a record that does
    /// not end in a zero byte.
    MalformedStatus,
    /// A status record carries a key outside the eight telemetry keys.
    UnknownTelemetryKey,
    /// The bytes echoed for a ping differ from the bytes sent.
    EchoMismatch,
    /// A value for an update lies outside the signed 16-bit range.
    ValueOutOfRange,
    /// A content length does not fit the length field.
    PayloadTooLarge,
}

impl ProtocolError {
    /// The words in which the error is reported.
    pub open spec fn text(self) -> Seq<char> {
        match self {
            ProtocolError::TransportError => "the connection failed before the exchange was over"@,
            ProtocolError::MalformedStatus => "the status response is malformed"@,
            ProtocolError::UnknownTelemetryKey => "the status response holds an unknown key"@,
            ProtocolError::EchoMismatch => "the echo of the ping is not what was sent"@,
            ProtocolError::ValueOutOfRange => "the value does not fit sixteen signed bits"@,
            ProtocolError::PayloadTooLarge => "the payload is too large for one frame"@,
        }
    }

    /// The words in which the error is reported.
    pub fn message(self) -> (message: &'static str)
        ensures
            message@ == self.text(),
    {
        match self {
            ProtocolError::TransportError => "the connection failed before the exchange was over",
            ProtocolError::MalformedStatus => "the status response is malformed",
            ProtocolError::UnknownTelemetryKey => "the status response holds an unknown key",
            ProtocolError::EchoMismatch => "the echo of the ping is not what was sent",
            ProtocolError::ValueOutOfRange => "the value does not fit sixteen signed bits",
            ProtocolError::PayloadTooLarge => "the payload is too large for one frame",
        }
    }
}

} // verus!
