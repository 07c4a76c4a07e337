use remote_agent::enroll::{is_success_status, read_enrollment, EnrollError};
use remote_agent::commands::{
    classify_command, handle_command, parse_command, plan_command, shell_done, telemetry_done,
    update_done, Command, CommandAction, CommandError, CommandReply, ShellOutput,
};

fn failed_text(actions: &[CommandAction]) -> String {
    match actions {
        [CommandAction::Reply(CommandReply::Failed(text))] => text.clone(),
        other => panic!("unexpected {:?}", other),
    }
}

#[test]
fn commands_are_read_from_json() {
    assert!(matches!(
        parse_command(b"{\"type\":\"REFRESH_TELEMETRY\"}"),
        Ok(Command::RefreshTelemetry)
    ));
    assert!(matches!(parse_command(b"{\"type\": \"REBOOT\", \"x\": 1}"), Ok(Command::Reboot)));
    assert!(matches!(parse_command(b" {\"type\":\"UPDATE\"} "), Ok(Command::Update)));
    match parse_command(b"{\"command\":\"ls -la /tmp\",\"type\":\"RUN_SHELL\"}") {
        Ok(Command::RunShell { command }) => assert_eq!(command, "ls -la /tmp"),
        other => panic!("unexpected {:?}", other),
    }
    match parse_command("{\"type\":\"RUN_SHELL\",\"command\":\"echo \\\"h\u{e9}\\\"\"}".as_bytes()) {
        Ok(Command::RunShell { command }) => assert_eq!(command, "echo \"h\u{e9}\""),
        other => panic!("unexpected {:?}", other),
    }
}

#[test]
fn unknown_and_missing_types_are_unknown_commands() {
    match parse_command(b"{\"type\":\"DANCE\"}") {
        Ok(Command::Unknown { name }) => assert_eq!(name, "DANCE"),
        other => panic!("unexpected {:?}", other),
    }
    // a missing type, a type that is no string and a document that is no object
    for payload in [&b"{}"[..], b"{\"type\":5}", b"[1,2]", b"null", b"\"REBOOT\""] {
        match parse_command(payload) {
            Ok(Command::Unknown { name }) => assert_eq!(name, ""),
            other => panic!("unexpected {:?}", other),
        }
    }
    // the type is matched exactly
    assert!(matches!(parse_command(b"{\"type\":\"reboot\"}"), Ok(Command::Unknown { .. })));
}

#[test]
fn run_shell_needs_a_command_line() {
    for payload in [
        &b"{\"type\":\"RUN_SHELL\"}"[..],
        b"{\"type\":\"RUN_SHELL\",\"command\":\"\"}",
        b"{\"type\":\"RUN_SHELL\",\"command\":7}",
    ] {
        assert!(matches!(parse_command(payload), Err(CommandError::MissingCommand)));
    }
    assert_eq!(failed_text(&handle_command(b"{\"type\":\"RUN_SHELL\"}")), "missing 'command' field");
}

#[test]
fn payloads_that_are_no_json_are_refused() {
    assert!(matches!(parse_command(&[0xFF, 0xFE]), Err(CommandError::InvalidUtf8)));
    assert_eq!(failed_text(&handle_command(&[b'{', 0xC3, 0x28, b'}'])), "invalid UTF-8 payload");
    match parse_command(b"{\"type\":") {
        Err(CommandError::InvalidJson(complaint)) => {
            assert_eq!(complaint, "EOF while parsing a value at line 1 column 8")
        }
        other => panic!("unexpected {:?}", other),
    }
    assert_eq!(
        failed_text(&handle_command(b"")),
        "invalid JSON: EOF while parsing a value at line 1 column 0"
    );
}

#[test]
fn first_actions_of_each_command() {
    assert!(matches!(
        &handle_command(b"{\"type\":\"REFRESH_TELEMETRY\"}")[..],
        [CommandAction::SendTelemetry]
    ));
    assert!(matches!(
        &handle_command(b"{\"type\":\"REBOOT\"}")[..],
        [CommandAction::Reply(CommandReply::Done), CommandAction::Reboot]
    ));
    assert!(matches!(&handle_command(b"{\"type\":\"UPDATE\"}")[..], [CommandAction::Update]));
    match &handle_command(b"{\"type\":\"RUN_SHELL\",\"command\":\"uptime\"}")[..] {
        [CommandAction::RunShell(line)] => assert_eq!(line, "uptime"),
        other => panic!("unexpected {:?}", other),
    }
    assert_eq!(failed_text(&handle_command(b"{\"type\":\"X\"}")), "unknown command: X");
    assert_eq!(
        failed_text(&plan_command(Err(CommandError::InvalidJson("bad".to_string())))),
        "invalid JSON: bad"
    );
}

#[test]
fn classify_matches_the_four_commands() {
    assert!(matches!(classify_command("REBOOT", "ignored"), Ok(Command::Reboot)));
    assert!(matches!(classify_command("UPDATE", ""), Ok(Command::Update)));
    assert!(matches!(classify_command("REFRESH_TELEMETRY", ""), Ok(Command::RefreshTelemetry)));
    assert!(matches!(classify_command("RUN_SHELL", ""), Err(CommandError::MissingCommand)));
    assert!(matches!(classify_command("RUN_SHELL ", "x"), Ok(Command::Unknown { .. })));
}

#[test]
fn answers_after_the_host_has_acted() {
    assert!(matches!(telemetry_done(Ok(())), CommandReply::Done));
    match telemetry_done(Err("connection channel closed".to_string())) {
        CommandReply::Failed(text) => assert_eq!(text, "telemetry error: connection channel closed"),
        other => panic!("unexpected {:?}", other),
    }
    let output = ShellOutput {
        success: false,
        exit_code: Some(2),
        stdout: "out".to_string(),
        stderr: "err".to_string(),
    };
    match shell_done(Ok(output)) {
        CommandReply::Shell { success, exit_code, stdout, stderr } => {
            assert!(!success);
            assert_eq!(exit_code, Some(2));
            assert_eq!((stdout.as_str(), stderr.as_str()), ("out", "err"));
        }
        other => panic!("unexpected {:?}", other),
    }
    match shell_done(Err("No such file".to_string())) {
        CommandReply::Failed(text) => assert_eq!(text, "exec error: No such file"),
        other => panic!("unexpected {:?}", other),
    }
    assert!(matches!(
        &update_done(Ok(true))[..],
        [CommandAction::Reply(CommandReply::Done), CommandAction::Restart]
    ));
    assert!(matches!(&update_done(Ok(false))[..], [CommandAction::Reply(CommandReply::Done)]));
    assert_eq!(
        failed_text(&update_done(Err("checksum mismatch".to_string()))),
        "update error: checksum mismatch"
    );
}

#[test]
fn enrollment_answers_are_read() {
    let ok = read_enrollment(b"{\"deviceId\":\"dev-1\",\"sessionToken\":\"tok\",\"x\":[1]}").unwrap();
    assert_eq!((ok.device_id.as_str(), ok.session_token.as_str()), ("dev-1", "tok"));
    assert!(matches!(
        read_enrollment(b"{\"sessionToken\":\"tok\"}"),
        Err(EnrollError::MissingDeviceId)
    ));
    assert!(matches!(
        read_enrollment(b"{\"deviceId\":\"d\",\"sessionToken\":5}"),
        Err(EnrollError::MissingSessionToken)
    ));
    assert!(matches!(read_enrollment(b"{\"deviceId\":null}"), Err(EnrollError::MissingDeviceId)));
    assert!(matches!(read_enrollment(b"[]"), Err(EnrollError::MissingDeviceId)));
    assert!(matches!(read_enrollment(b"{"), Err(EnrollError::InvalidJson(_))));
    assert!(matches!(read_enrollment(&[0xC0]), Err(EnrollError::InvalidUtf8)));
    assert!(is_success_status(200) && is_success_status(204) && is_success_status(299));
    assert!(!is_success_status(199) && !is_success_status(300) && !is_success_status(404));
}
