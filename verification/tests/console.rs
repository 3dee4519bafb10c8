use franklin_client::console::{
    dispatch, gyro_command, gyro_offset_value, mot_command, pid_command, python_command,
    require_connection, Complaint, Handler, PythonAction,
};
use franklin_client::datatypes::{ProtocolError, VariableUpdateTarget};
use franklin_client::text::{split_words, SPACE};

fn words(line: &str) -> Vec<Vec<u8>> {
    split_words(line.as_bytes(), SPACE)
}

#[test]
fn dispatch_goes_by_the_first_word() {
    let cases = [
        ("pid p 300", Handler::Pid),
        ("pid", Handler::Pid),
        ("mot on", Handler::Mot),
        ("gyro 1.3", Handler::Gyro),
        ("graph 20", Handler::Graph),
        ("python stream 30", Handler::Python),
        ("ping", Handler::Ping),
        ("ping now", Handler::Ping),
        ("poll", Handler::Poll),
        ("exit", Handler::Exit),
        ("", Handler::Nothing),
        (" pid", Handler::Nothing),
        ("PID p 300", Handler::Unknown),
        ("pi", Handler::Unknown),
        ("pidd", Handler::Unknown),
        ("pin", Handler::Unknown),
        ("quit", Handler::Unknown),
        ("\tpoll", Handler::Unknown),
    ];
    for (line, handler) in cases {
        assert_eq!(dispatch(&words(line)), handler, "{line:?}");
    }
    assert_eq!(dispatch(&Vec::new()), Handler::Nothing);
}

#[test]
fn pid_command_reads_target_and_value() {
    let cases = [
        ("pid i 310", Ok((VariableUpdateTarget::PidIntegral, 310))),
        ("pid p 300", Ok((VariableUpdateTarget::PidProportional, 300))),
        ("pid d -5", Ok((VariableUpdateTarget::PidDerivative, -5))),
        ("pid d +5", Ok((VariableUpdateTarget::PidDerivative, 5))),
        ("pid p 32767", Ok((VariableUpdateTarget::PidProportional, 32767))),
        ("pid p -32768", Ok((VariableUpdateTarget::PidProportional, -32768))),
        ("pid p 32768", Err(Complaint::IllegalValue)),
        ("pid p 1.5", Err(Complaint::IllegalValue)),
        ("pid p", Err(Complaint::MissingArguments)),
        ("pid", Err(Complaint::MissingArguments)),
        ("pid p 300 1", Err(Complaint::MissingArguments)),
        ("pid  p 300", Err(Complaint::MissingArguments)),
        ("pid x 300", Err(Complaint::InvalidPidTarget)),
        ("pid P 300", Err(Complaint::InvalidPidTarget)),
        ("pid pi 300", Err(Complaint::InvalidPidTarget)),
        ("pid x abc", Err(Complaint::InvalidPidTarget)),
        ("pid i abc", Err(Complaint::IllegalValue)),
        ("pid i ", Err(Complaint::IllegalValue)),
    ];
    for (line, expected) in cases {
        assert_eq!(pid_command(&words(line), true), expected, "{line:?}");
        assert_eq!(
            pid_command(&words(line), false),
            Err(Complaint::NotConnected),
            "{line:?}"
        );
    }
}

#[test]
fn mot_command_switches_the_motors() {
    let cases = [
        ("mot on", Ok((VariableUpdateTarget::MotorEnabled, 1))),
        ("mot off", Ok((VariableUpdateTarget::MotorEnabled, 0))),
        ("mot ON", Err(Complaint::InvalidMotorArgument)),
        ("mot 1", Err(Complaint::InvalidMotorArgument)),
        ("mot o", Err(Complaint::InvalidMotorArgument)),
        ("mot ", Err(Complaint::InvalidMotorArgument)),
        ("mot", Err(Complaint::MissingArguments)),
        ("mot on off", Err(Complaint::MissingArguments)),
    ];
    for (line, expected) in cases {
        assert_eq!(mot_command(&words(line), true), expected, "{line:?}");
        assert_eq!(
            mot_command(&words(line), false),
            Err(Complaint::NotConnected),
            "{line:?}"
        );
    }
}

#[test]
fn gyro_command_wants_one_argument_and_the_device() {
    assert_eq!(gyro_command(&words("gyro 1.3"), true), Ok(()));
    assert_eq!(gyro_command(&words("gyro x"), true), Ok(()));
    assert_eq!(
        gyro_command(&words("gyro"), true),
        Err(Complaint::MissingArguments)
    );
    assert_eq!(
        gyro_command(&words("gyro 1 2"), true),
        Err(Complaint::MissingArguments)
    );
    assert_eq!(
        gyro_command(&words("gyro 1.3"), false),
        Err(Complaint::NotConnected)
    );
    assert_eq!(
        gyro_command(&words("gyro"), false),
        Err(Complaint::NotConnected)
    );
}

#[test]
fn gyro_offset_is_counted_in_tenths_of_a_degree() {
    assert_eq!(gyro_offset_value(0), Ok(0));
    assert_eq!(gyro_offset_value(1), Ok(10));
    assert_eq!(gyro_offset_value(-2), Ok(-20));
    assert_eq!(gyro_offset_value(3276), Ok(32760));
    assert_eq!(gyro_offset_value(-3276), Ok(-32760));
    assert_eq!(gyro_offset_value(3277), Err(ProtocolError::ValueOutOfRange));
    assert_eq!(gyro_offset_value(-3277), Err(ProtocolError::ValueOutOfRange));
    assert_eq!(gyro_offset_value(i64::MAX), Err(ProtocolError::ValueOutOfRange));
    assert_eq!(gyro_offset_value(i64::MIN), Err(ProtocolError::ValueOutOfRange));
}

#[test]
fn python_command_reads_its_four_commands() {
    // (line, esp connected, python connected, expected)
    let cases = [
        ("python begin", false, false, Ok(PythonAction::Begin)),
        ("python begin", true, true, Ok(PythonAction::Begin)),
        ("python begin again", false, false, Ok(PythonAction::Begin)),
        ("python msg hello", false, true, Ok(PythonAction::Message)),
        ("python msg hello", true, false, Err(Complaint::PythonNotConnected)),
        ("python msg", true, true, Err(Complaint::MissingArguments)),
        ("python msg a b", true, true, Err(Complaint::MissingArguments)),
        ("python msg", false, false, Err(Complaint::MissingArguments)),
        ("python stream 30", true, true, Ok(PythonAction::Stream { seconds: 30 })),
        ("python stream 0", true, true, Ok(PythonAction::Stream { seconds: 0 })),
        ("python stream 30", true, false, Err(Complaint::PythonNotConnected)),
        ("python stream 30", false, false, Err(Complaint::PythonNotConnected)),
        ("python stream 30", false, true, Err(Complaint::EspNotConnected)),
        ("python stream x", false, true, Err(Complaint::EspNotConnected)),
        ("python stream x", true, true, Err(Complaint::IllegalValue)),
        ("python stream -1", true, true, Err(Complaint::IllegalValue)),
        ("python stream", true, true, Err(Complaint::MissingArguments)),
        ("python stop", false, true, Ok(PythonAction::Stop)),
        ("python stop now", false, true, Ok(PythonAction::Stop)),
        ("python stop", true, false, Err(Complaint::PythonNotConnected)),
        ("python", true, true, Err(Complaint::MissingArguments)),
        ("python start", true, true, Err(Complaint::InvalidPythonArgument)),
        ("python ", true, true, Err(Complaint::InvalidPythonArgument)),
        ("python Begin", true, true, Err(Complaint::InvalidPythonArgument)),
    ];
    for (line, esp, python, expected) in cases {
        assert_eq!(python_command(&words(line), esp, python), expected, "{line:?}");
    }
}

#[test]
fn ping_and_poll_want_the_device() {
    assert_eq!(require_connection(true), Ok(()));
    assert_eq!(require_connection(false), Err(Complaint::NotConnected));
}

#[test]
fn complaints_have_their_words() {
    let cases = [
        (Complaint::NotConnected, "error: not connected to esp"),
        (Complaint::MissingArguments, "error: missing arguments"),
        (Complaint::InvalidPidTarget, "error: invalid pid target"),
        (Complaint::IllegalValue, "error: illegal value"),
        (
            Complaint::InvalidMotorArgument,
            "error: invalid argument. expected enable/disable",
        ),
        (Complaint::NoTerminal, "error: unable to determine console width"),
        (Complaint::PythonNotConnected, "error: python not connected"),
        (Complaint::EspNotConnected, "error: esp not connected"),
        (Complaint::InvalidPythonArgument, "error: invalid argument"),
        (Complaint::UnknownCommand, "error: unknown command"),
    ];
    for (complaint, message) in cases {
        assert_eq!(complaint.message(), message);
    }
}
