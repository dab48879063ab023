use gear_program::cmd::create::{Create, GasSource};
use gear_program::cmd::program::{Action, PidError, Program, StateQuery};
use gear_program::cmd::{Command, Opt};
use gear_program::hexadecimal::{decode_prefixed, to_hash, HexError};

fn program(pid: &str, msg: &str, timestamp: Option<u64>, height: Option<u64>) -> Program {
    Program { pid: pid.to_string(), action: Action::State { msg: msg.to_string(), timestamp, height } }
}

fn with_pid(pid: &str) -> Program {
    program(pid, "", None, None)
}

const PID: &str = "000102030405060708090a0b0c0d0e0f101112131415161718191A1B1C1D1E1F";

fn expected_pid() -> [u8; 32] {
    let mut pid = [0u8; 32];
    for (i, byte) in pid.iter_mut().enumerate() {
        *byte = i as u8;
    }
    pid
}

#[test]
fn pid_is_read_from_hexadecimal_of_either_case() {
    assert_eq!(with_pid(PID).pid_bytes(), Ok(expected_pid()));
}

#[test]
fn pid_may_have_its_prefix_once_or_more() {
    assert_eq!(with_pid(&format!("0x{PID}")).pid_bytes(), Ok(expected_pid()));
    assert_eq!(with_pid(&format!("0x0x0x{PID}")).pid_bytes(), Ok(expected_pid()));
}

#[test]
fn pid_of_another_length_is_refused() {
    assert_eq!(with_pid("0x").pid_bytes(), Err(PidError::Length(0)));
    assert_eq!(with_pid("").pid_bytes(), Err(PidError::Length(0)));
    assert_eq!(with_pid("0x0102").pid_bytes(), Err(PidError::Length(2)));
    assert_eq!(with_pid(&format!("{PID}00")).pid_bytes(), Err(PidError::Length(33)));
}

#[test]
fn pid_that_is_not_hexadecimal_is_refused() {
    assert_eq!(with_pid("0x123").pid_bytes(), Err(PidError::Hex(HexError::OddLength)));
    assert_eq!(
        with_pid("0x12g4").pid_bytes(),
        Err(PidError::Hex(HexError::InvalidHexCharacter { c: 'g', index: 2 }))
    );
    assert_eq!(
        with_pid("0X12").pid_bytes(),
        Err(PidError::Hex(HexError::InvalidHexCharacter { c: 'X', index: 1 }))
    );
    assert_eq!(
        with_pid("x0").pid_bytes(),
        Err(PidError::Hex(HexError::InvalidHexCharacter { c: 'x', index: 0 }))
    );
}

#[test]
fn state_query_reads_the_message_and_fills_in_zeroes() {
    assert_eq!(
        program(PID, "00ff10", None, None).state_query(),
        Ok(StateQuery { msg: vec![0, 255, 16], timestamp: 0, height: 0 })
    );
    assert_eq!(
        program(PID, "", Some(77), Some(9)).state_query(),
        Ok(StateQuery { msg: vec![], timestamp: 77, height: 9 })
    );
    assert_eq!(
        program(PID, "AbCd", Some(1), None).state_query(),
        Ok(StateQuery { msg: vec![0xab, 0xcd], timestamp: 1, height: 0 })
    );
}

#[test]
fn state_query_does_not_take_a_prefix() {
    assert_eq!(
        program(PID, "0x", None, None).state_query(),
        Err(HexError::InvalidHexCharacter { c: 'x', index: 1 })
    );
    assert_eq!(program(PID, "abc", None, None).state_query(), Err(HexError::OddLength));
}

#[test]
fn state_line_shows_the_state_in_lower_case_hexadecimal() {
    assert_eq!(Program::state_line(&[]), "state: 0x");
    assert_eq!(Program::state_line(&[0, 1, 0xab, 0xff, 0x9a]), "state: 0x0001abff9a");
}

fn create(gas_limit: u64) -> Create {
    Create {
        code_id: "0x01".to_string(),
        salt: "0x".to_string(),
        init_payload: "0x".to_string(),
        gas_limit,
        value: 0,
    }
}

#[test]
fn gas_is_estimated_where_no_limit_is_given() {
    assert_eq!(create(0).gas_source(), GasSource::Estimated);
    assert_eq!(create(1).gas_source(), GasSource::Given(1));
    assert_eq!(create(u64::MAX).gas_source(), GasSource::Given(u64::MAX));
}

fn opt(command: Command, verbose: bool) -> Opt {
    Opt { command, verbose, endpoint: None, passwd: None }
}

#[test]
fn log_filter_is_set_for_verbose_runs_that_have_none() {
    assert_eq!(opt(Command::Info, true).log_filter(false), Some("debug"));
    assert_eq!(opt(Command::Info, true).log_filter(true), None);
    assert_eq!(opt(Command::Info, false).log_filter(false), None);
    assert_eq!(opt(Command::Info, false).log_filter(true), None);
}

#[test]
fn commands_that_talk_to_the_node_connect() {
    let connecting = [
        Command::Claim,
        Command::Deploy,
        Command::Info,
        Command::Program(with_pid(PID)),
        Command::Reply,
        Command::Send,
        Command::Submit,
        Command::Transfer,
    ];
    for command in connecting {
        assert!(command.connects());
    }
    let local = [Command::Key, Command::Login, Command::Meta, Command::New, Command::Update];
    for command in local {
        assert!(!command.connects());
    }
}

#[test]
fn prefixed_hexadecimal_is_read_behind_its_prefixes() {
    assert_eq!(decode_prefixed("0x00ff"), Ok(vec![0, 255]));
    assert_eq!(decode_prefixed("00ff"), Ok(vec![0, 255]));
    assert_eq!(decode_prefixed("0x0x0x"), Ok(vec![]));
    assert_eq!(decode_prefixed("0x0"), Err(HexError::OddLength));
    assert_eq!(decode_prefixed("000x"), Err(HexError::InvalidHexCharacter { c: 'x', index: 3 }));
    assert_eq!(
        decode_prefixed("0xé12"),
        Err(HexError::InvalidHexCharacter { c: '\u{c3}', index: 0 })
    );
}

#[test]
fn thirty_two_bytes_make_a_hash() {
    assert_eq!(to_hash(&expected_pid().to_vec()), Some(expected_pid()));
    assert_eq!(to_hash(&vec![0; 31]), None);
    assert_eq!(to_hash(&vec![0; 33]), None);
    assert_eq!(to_hash(&vec![]), None);
}
