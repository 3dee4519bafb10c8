//! The commands of the interactive prompt.
//!
//! A command line is cut into words at each space. The first word picks the
//! handler, and each handler turns the words into what is to be done or into a
//! complaint. Nothing here prints or sends: the decisions are made from the
//! words and from whether the two peers are connected.
//!
//! ```text
//! pid <p|i|d> <int16>      mot <on|off>        gyro <degrees>
//! graph <seconds>          ping                poll
//! python begin | msg <word> | stream <seconds> | stop
//! exit
//! ```

use vstd::prelude::*;
use vstd::string::StringSliceAdditionalSpecFns;
use crate::datatypes::{ProtocolError, VariableUpdateTarget};
use crate::text::{parse_signed, parse_unsigned, same_text, signed_of, unsigned_of, word_views};

verus! {

/// The handler that a command line goes to.
#[derive(Clone, Copy, Debug, PartialEq, Eq, Structural)]
pub enum Handler {
    Pid,
    Mot,
    Gyro,
    Graph,
    Python,
    Ping,
    Poll,
    Exit,
    /// The line is empty: nothing is done and nothing is said.
    Nothing,
    /// The first word names no command.
    Unknown,
}

/// Why a command is not carried out.
#[derive(Clone, Copy, Debug, PartialEq, Eq, Structural)]
pub enum Complaint {
    /// The command needs the device, which is not connected.
    NotConnected,
    /// The command has too few or too many words.
    MissingArguments,
    /// The second word of `pid` is none of `p`, `i`, `d`.
    InvalidPidTarget,
    /// A number cannot be read, or is out of range.
    IllegalValue,
    /// The second word of `mot` is neither `on` nor `off`.
    InvalidMotorArgument,
    /// The width of the terminal cannot be found out.
    NoTerminal,
    /// The command needs the relay, which is not connected.
    PythonNotConnected,
    /// `python stream` needs the device, which is not connected.
    EspNotConnected,
    /// The second word of `python` names none of its commands.
    InvalidPythonArgument,
    /// The first word names no command.
    UnknownCommand,
}

/// What a `python` command asks for.
#[derive(Clone, Copy, Debug, PartialEq, Eq, Structural)]
pub enum PythonAction {
    /// Connect to the relay.
    Begin,
    /// Send the third word to the relay as a message.
    Message,
    /// Poll the device and relay each status, for this many seconds.
    Stream { seconds: u64 },
    /// Tell the relay to stop.
    Stop,
}

impl Complaint {
    /// The words in which the complaint is made. Where the complaint is about
    /// a word of the command, that word follows the text.
    pub open spec fn text(self) -> Seq<char> {
        match self {
            Complaint::NotConnected => "error: not connected to esp"@,
            Complaint::MissingArguments => "error: missing arguments"@,
            Complaint::InvalidPidTarget => "error: invalid pid target"@,
            Complaint::IllegalValue => "error: illegal value"@,
            Complaint::InvalidMotorArgument => "error: invalid argument. expected enable/disable"@,
            Complaint::NoTerminal => "error: unable to determine console width"@,
            Complaint::PythonNotConnected => "error: python not connected"@,
            Complaint::EspNotConnected => "error: esp not connected"@,
            Complaint::InvalidPythonArgument => "error: invalid argument"@,
            Complaint::UnknownCommand => "error: unknown command"@,
        }
    }

    /// The words in which the complaint is made.
    pub fn message(self) -> (message: &'static str)
        ensures
            message@ == self.text(),
    {
        match self {
            Complaint::NotConnected => "error: not connected to esp",
            Complaint::MissingArguments => "error: missing arguments",
            Complaint::InvalidPidTarget => "error: invalid pid target",
            Complaint::IllegalValue => "error: illegal value",
            Complaint::InvalidMotorArgument => "error: invalid argument. expected enable/disable",
            Complaint::NoTerminal => "error: unable to determine console width",
            Complaint::PythonNotConnected => "error: python not connected",
            Complaint::EspNotConnected => "error: esp not connected",
            Complaint::InvalidPythonArgument => "error: invalid argument",
            Complaint::UnknownCommand => "error: unknown command",
        }
    }
}

/// The handler that the first word of a command picks.
pub open spec fn handler_of(words: Seq<Seq<u8>>) -> Handler {
    if words.len() == 0 || words[0].len() == 0 {
        Handler::Nothing
    } else if words[0] == "pid".spec_bytes() {
        Handler::Pid
    } else if words[0] == "mot".spec_bytes() {
        Handler::Mot
    } else if words[0] == "gyro".spec_bytes() {
        Handler::Gyro
    } else if words[0] == "graph".spec_bytes() {
        Handler::Graph
    } else if words[0] == "python".spec_bytes() {
        Handler::Python
    } else if words[0] == "ping".spec_bytes() {
        Handler::Ping
    } else if words[0] == "poll".spec_bytes() {
        Handler::Poll
    } else if words[0] == "exit".spec_bytes() {
        Handler::Exit
    } else {
        Handler::Unknown
    }
}

/// The PID gain that the second word of `pid` names.
pub open spec fn pid_target_of(word: Seq<u8>) -> Option<VariableUpdateTarget> {
    if word == "d".spec_bytes() {
        Some(VariableUpdateTarget::PidDerivative)
    } else if word == "p".spec_bytes() {
        Some(VariableUpdateTarget::PidProportional)
    } else if word == "i".spec_bytes() {
        Some(VariableUpdateTarget::PidIntegral)
    } else {
        None
    }
}

/// What `pid <p|i|d> <int16>` asks for: the update of one gain.
pub open spec fn pid_planned(words: Seq<Seq<u8>>, connected: bool) -> Result<
    (VariableUpdateTarget, i16),
    Complaint,
> {
    if !connected {
        Err(Complaint::NotConnected)
    } else if words.len() != 3 {
        Err(Complaint::MissingArguments)
    } else {
        match pid_target_of(words[1]) {
            None => Err(Complaint::InvalidPidTarget),
            Some(target) => match signed_of(words[2]) {
                None => Err(Complaint::IllegalValue),
                Some(value) => Ok((target, value)),
            },
        }
    }
}

/// What `mot <on|off>` asks for: the motor flag set to 1 or to 0.
pub open spec fn mot_planned(words: Seq<Seq<u8>>, connected: bool) -> Result<
    (VariableUpdateTarget, i16),
    Complaint,
> {
    if !connected {
        Err(Complaint::NotConnected)
    } else if words.len() != 2 {
        Err(Complaint::MissingArguments)
    } else if words[1] == "on".spec_bytes() {
        Ok((VariableUpdateTarget::MotorEnabled, 1i16))
    } else if words[1] == "off".spec_bytes() {
        Ok((VariableUpdateTarget::MotorEnabled, 0i16))
    } else {
        Err(Complaint::InvalidMotorArgument)
    }
}

/// Whether `gyro <degrees>` can go on to read its number.
pub open spec fn gyro_planned(words: Seq<Seq<u8>>, connected: bool) -> Result<(), Complaint> {
    if !connected {
        Err(Complaint::NotConnected)
    } else if words.len() != 2 {
        Err(Complaint::MissingArguments)
    } else {
        Ok(())
    }
}

/// What a `python` command asks for.
pub open spec fn python_planned(
    words: Seq<Seq<u8>>,
    esp_connected: bool,
    python_connected: bool,
) -> Result<PythonAction, Complaint> {
    if words.len() < 2 {
        Err(Complaint::MissingArguments)
    } else if words[1] == "begin".spec_bytes() {
        Ok(PythonAction::Begin)
    } else if words[1] == "msg".spec_bytes() {
        if words.len() != 3 {
            Err(Complaint::MissingArguments)
        } else if !python_connected {
            Err(Complaint::PythonNotConnected)
        } else {
            Ok(PythonAction::Message)
        }
    } else if words[1] == "stream".spec_bytes() {
        if words.len() != 3 {
            Err(Complaint::MissingArguments)
        } else if !python_connected {
            Err(Complaint::PythonNotConnected)
        } else if !esp_connected {
            Err(Complaint::EspNotConnected)
        } else {
            match unsigned_of(words[2]) {
                None => Err(Complaint::IllegalValue),
                Some(seconds) => Ok(PythonAction::Stream { seconds }),
            }
        }
    } else if words[1] == "stop".spec_bytes() {
        if !python_connected {
            Err(Complaint::PythonNotConnected)
        } else {
            Ok(PythonAction::Stop)
        }
    } else {
        Err(Complaint::InvalidPythonArgument)
    }
}

/// The bytes of the words that the commands are made of: each is its text in
/// ASCII, one byte for each character.
pub proof fn keyword_bytes()
    ensures
        "pid".spec_bytes() == seq![0x70u8, 0x69, 0x64],
        "mot".spec_bytes() == seq![0x6du8, 0x6f, 0x74],
        "gyro".spec_bytes() == seq![0x67u8, 0x79, 0x72, 0x6f],
        "graph".spec_bytes() == seq![0x67u8, 0x72, 0x61, 0x70, 0x68],
        "python".spec_bytes() == seq![0x70u8, 0x79, 0x74, 0x68, 0x6f, 0x6e],
        "ping".spec_bytes() == seq![0x70u8, 0x69, 0x6e, 0x67],
        "poll".spec_bytes() == seq![0x70u8, 0x6f, 0x6c, 0x6c],
        "exit".spec_bytes() == seq![0x65u8, 0x78, 0x69, 0x74],
        "p".spec_bytes() == seq![0x70u8],
        "i".spec_bytes() == seq![0x69u8],
        "d".spec_bytes() == seq![0x64u8],
        "on".spec_bytes() == seq![0x6fu8, 0x6e],
        "off".spec_bytes() == seq![0x6fu8, 0x66, 0x66],
        "begin".spec_bytes() == seq![0x62u8, 0x65, 0x67, 0x69, 0x6e],
        "msg".spec_bytes() == seq![0x6du8, 0x73, 0x67],
        "stream".spec_bytes() == seq![0x73u8, 0x74, 0x72, 0x65, 0x61, 0x6d],
        "stop".spec_bytes() == seq![0x73u8, 0x74, 0x6f, 0x70],
{
    reveal_strlit("pid");
    reveal_strlit("mot");
    reveal_strlit("gyro");
    reveal_strlit("graph");
    reveal_strlit("python");
    reveal_strlit("ping");
    reveal_strlit("poll");
    reveal_strlit("exit");
    reveal_strlit("p");
    reveal_strlit("i");
    reveal_strlit("d");
    reveal_strlit("on");
    reveal_strlit("off");
    reveal_strlit("begin");
    reveal_strlit("msg");
    reveal_strlit("stream");
    reveal_strlit("stop");
    vstd::string::is_ascii_spec_bytes("pid");
    vstd::string::is_ascii_spec_bytes("mot");
    vstd::string::is_ascii_spec_bytes("gyro");
    vstd::string::is_ascii_spec_bytes("graph");
    vstd::string::is_ascii_spec_bytes("python");
    vstd::string::is_ascii_spec_bytes("ping");
    vstd::string::is_ascii_spec_bytes("poll");
    vstd::string::is_ascii_spec_bytes("exit");
    vstd::string::is_ascii_spec_bytes("p");
    vstd::string::is_ascii_spec_bytes("i");
    vstd::string::is_ascii_spec_bytes("d");
    vstd::string::is_ascii_spec_bytes("on");
    vstd::string::is_ascii_spec_bytes("off");
    vstd::string::is_ascii_spec_bytes("begin");
    vstd::string::is_ascii_spec_bytes("msg");
    vstd::string::is_ascii_spec_bytes("stream");
    vstd::string::is_ascii_spec_bytes("stop");
}

/// Picks the handler of a command by its first word.
pub fn dispatch(words: &Vec<Vec<u8>>) -> (handler: Handler)
    ensures
        handler == handler_of(word_views(words)),
{
    if words.len() == 0 {
        return Handler::Nothing;
    }
    let word = words[0].as_slice();
    assert(word@ == word_views(words)[0]);
    if word.len() == 0 {
        Handler::Nothing
    } else if same_text(word, "pid".as_bytes()) {
        Handler::Pid
    } else if same_text(word, "mot".as_bytes()) {
        Handler::Mot
    } else if same_text(word, "gyro".as_bytes()) {
        Handler::Gyro
    } else if same_text(word, "graph".as_bytes()) {
        Handler::Graph
    } else if same_text(word, "python".as_bytes()) {
        Handler::Python
    } else if same_text(word, "ping".as_bytes()) {
        Handler::Ping
    } else if same_text(word, "poll".as_bytes()) {
        Handler::Poll
    } else if same_text(word, "exit".as_bytes()) {
        Handler::Exit
    } else {
        Handler::Unknown
    }
}

/// Reads `pid <p|i|d> <int16>`.
pub fn pid_command(words: &Vec<Vec<u8>>, connected: bool) -> (result: Result<
    (VariableUpdateTarget, i16),
    Complaint,
>)
    ensures
        result == pid_planned(word_views(words), connected),
{
    if !connected {
        return Err(Complaint::NotConnected);
    }
    if words.len() != 3 {
        return Err(Complaint::MissingArguments);
    }
    let which = words[1].as_slice();
    let number = words[2].as_slice();
    assert(which@ == word_views(words)[1]);
    assert(number@ == word_views(words)[2]);
    let target = if same_text(which, "d".as_bytes()) {
        VariableUpdateTarget::PidDerivative
    } else if same_text(which, "p".as_bytes()) {
        VariableUpdateTarget::PidProportional
    } else if same_text(which, "i".as_bytes()) {
        VariableUpdateTarget::PidIntegral
    } else {
        return Err(Complaint::InvalidPidTarget);
    };
    match parse_signed(number) {
        Some(value) => Ok((target, value)),
        None => Err(Complaint::IllegalValue),
    }
}

/// Reads `mot <on|off>`.
pub fn mot_command(words: &Vec<Vec<u8>>, connected: bool) -> (result: Result<
    (VariableUpdateTarget, i16),
    Complaint,
>)
    ensures
        result == mot_planned(word_views(words), connected),
{
    if !connected {
        return Err(Complaint::NotConnected);
    }
    if words.len() != 2 {
        return Err(Complaint::MissingArguments);
    }
    let switch = words[1].as_slice();
    assert(switch@ == word_views(words)[1]);
    if same_text(switch, "on".as_bytes()) {
        Ok((VariableUpdateTarget::MotorEnabled, 1))
    } else if same_text(switch, "off".as_bytes()) {
        Ok((VariableUpdateTarget::MotorEnabled, 0))
    } else {
        Err(Complaint::InvalidMotorArgument)
    }
}

/// Checks `gyro <degrees>` up to its number, which is the second word.
pub fn gyro_command(words: &Vec<Vec<u8>>, connected: bool) -> (result: Result<(), Complaint>)
    ensures
        result == gyro_planned(word_views(words), connected),
{
    if !connected {
        Err(Complaint::NotConnected)
    } else if words.len() != 2 {
        Err(Complaint::MissingArguments)
    } else {
        Ok(())
    }
}

/// The gyroscope offset for a whole number of degrees, in the tenths of a
/// degree that the device counts in.
pub fn gyro_offset_value(degrees: i64) -> (result: Result<i16, ProtocolError>)
    ensures
        -32768 <= degrees * 10 <= 32767 ==> result == Ok::<i16, ProtocolError>(
            (degrees * 10) as i16,
        ),
        !(-32768 <= degrees * 10 <= 32767) ==> result == Err::<i16, ProtocolError>(
            ProtocolError::ValueOutOfRange,
        ),
{
    if degrees < -3276 || degrees > 3276 {
        Err(ProtocolError::ValueOutOfRange)
    } else {
        Ok((degrees * 10) as i16)
    }
}

/// Reads a `python` command.
pub fn python_command(words: &Vec<Vec<u8>>, esp_connected: bool, python_connected: bool) -> (result:
    Result<PythonAction, Complaint>)
    ensures
        result == python_planned(word_views(words), esp_connected, python_connected),
{
    if words.len() < 2 {
        return Err(Complaint::MissingArguments);
    }
    let which = words[1].as_slice();
    assert(which@ == word_views(words)[1]);
    if same_text(which, "begin".as_bytes()) {
        Ok(PythonAction::Begin)
    } else if same_text(which, "msg".as_bytes()) {
        if words.len() != 3 {
            Err(Complaint::MissingArguments)
        } else if !python_connected {
            Err(Complaint::PythonNotConnected)
        } else {
            Ok(PythonAction::Message)
        }
    } else if same_text(which, "stream".as_bytes()) {
        if words.len() != 3 {
            Err(Complaint::MissingArguments)
        } else if !python_connected {
            Err(Complaint::PythonNotConnected)
        } else if !esp_connected {
            Err(Complaint::EspNotConnected)
        } else {
            let number = words[2].as_slice();
            assert(number@ == word_views(words)[2]);
            match parse_unsigned(number) {
                Some(seconds) => Ok(PythonAction::Stream { seconds }),
                None => Err(Complaint::IllegalValue),
            }
        }
    } else if same_text(which, "stop".as_bytes()) {
        if !python_connected {
            Err(Complaint::PythonNotConnected)
        } else {
            Ok(PythonAction::Stop)
        }
    } else {
        Err(Complaint::InvalidPythonArgument)
    }
}

/// What `ping` and `poll` ask before they go to the device: that it is
/// connected.
pub fn require_connection(connected: bool) -> (result: Result<(), Complaint>)
    ensures
        result == if connected {
            Ok::<(), Complaint>(())
        } else {
            Err::<(), Complaint>(Complaint::NotConnected)
        },
{
    if connected {
        Ok(())
    } else {
        Err(Complaint::NotConnected)
    }
}

} // verus!
