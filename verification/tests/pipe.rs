use remote_agent::agent::{Agent, AgentAction};
use remote_agent::config::AgentConfig;
use remote_agent::connection::ServerEvent;
use remote_agent::helper::{
    active_console_session, connect_retry, helper_command_line, helper_pipe_name,
    is_system_service_context, relay_from_helper, supervise, RelayAction, RetryStep,
    SupervisorAction, HELPER_CHECK_INTERVAL_SECS, PIPE_CONNECT_ATTEMPTS, PIPE_CONNECT_DELAY_MS,
};
use remote_agent::ipc::{
    pipe_name_for_device, IpcError, IpcReader, IpcWriter, MAX_IPC_MESSAGE_SIZE,
};
use remote_agent::protocol::{
    Message, COMMAND, DESKTOP_FRAME, DESKTOP_OPEN, DESKTOP_RESIZE, FILE_LIST_REQ, FILE_UPLOAD_DATA,
    HEARTBEAT, TELEMETRY_REQ, TERMINAL_DATA, TERMINAL_OPEN,
};
use remote_agent::router::{is_file_message, is_session_message, route, Route};

fn config() -> AgentConfig {
    let mut c = AgentConfig::default();
    c.server_url = "wss://s".to_string();
    c.session_token = Some("tok".to_string());
    c.device_id = Some("dev-9".to_string());
    c
}

#[test]
fn no_desktop_proxy() {
    let mut agent = Agent::new(config(), true);
    agent.set_helper_attached(true);
    let open = Message::session(DESKTOP_OPEN, 5, 0, b"{\"quality\":70}".to_vec());
    let encoded = open.encode();
    let actions = agent.on_event(Some(ServerEvent::Message(open)));
    assert_eq!(actions.len(), 1);
    let bytes = match &actions[0] {
        AgentAction::ToHelper(bytes) => bytes.clone(),
        other => panic!("unexpected {:?}", other),
    };
    assert_eq!(bytes, encoded);
    // exactly one length-prefixed message whose body is the encoded frame
    let framed = IpcWriter::frame(&bytes).unwrap();
    assert_eq!(&framed[..4], &(encoded.len() as u32).to_le_bytes());
    assert_eq!(&framed[4..], &encoded[..]);
    let mut reader = IpcReader::new();
    assert_eq!(reader.wanted(), 4);
    assert_eq!(reader.recv_raw(&framed[..4]), Ok(None));
    assert_eq!(reader.wanted(), encoded.len());
    assert_eq!(reader.recv_raw(&framed[4..]), Ok(Some(encoded)));
    assert_eq!(reader.wanted(), 4);
}

#[test]
fn session_frames_are_dropped_without_a_helper() {
    let mut agent = Agent::new(config(), true);
    let data = Message::session(TERMINAL_DATA, 5, 0, vec![1]);
    assert!(agent.on_event(Some(ServerEvent::Message(data))).is_empty());
    // the control plane stays alive
    let list = Message::control(FILE_LIST_REQ, 3, vec![]);
    assert!(matches!(
        &agent.on_event(Some(ServerEvent::Message(list)))[..],
        [AgentAction::ToFiles(m)] if m.header.request_id == 3
    ));
}

#[test]
fn frames_go_to_their_subsystems() {
    let mut agent = Agent::new(config(), false);
    let check = |agent: &mut Agent, kind: u8| agent.on_event(Some(ServerEvent::Message(Message::new(kind, 2, 8, vec![]))));
    assert!(matches!(&check(&mut agent, TERMINAL_OPEN)[..], [AgentAction::ToSessions(_)]));
    assert!(matches!(&check(&mut agent, COMMAND)[..], [AgentAction::RunCommand(_)]));
    assert!(matches!(&check(&mut agent, FILE_UPLOAD_DATA)[..], [AgentAction::ToFiles(_)]));
    assert!(matches!(
        &check(&mut agent, TELEMETRY_REQ)[..],
        [AgentAction::SendTelemetry { request_id: 8 }]
    ));
    assert!(check(&mut agent, 0xEE).is_empty());
    assert!(matches!(&check(&mut agent, DESKTOP_FRAME)[..], [AgentAction::ToSessions(_)]));
    assert!(matches!(&check(&mut agent, DESKTOP_RESIZE)[..], [AgentAction::ToSessions(_)]));
    assert!(check(&mut agent, 0x16).is_empty());
    assert!(check(&mut agent, 0x24).is_empty());
}

#[test]
fn authentication_refreshes_the_token_and_announces_the_agent() {
    let mut agent = Agent::new(config(), false);
    assert!(!agent.is_authenticated());
    assert!(agent.on_telemetry_tick().is_empty());
    let event = ServerEvent::Authenticated {
        device_id: "dev-10".to_string(),
        session_token: "fresh".to_string(),
    };
    let actions = agent.on_event(Some(event));
    assert!(matches!(
        &actions[..],
        [
            AgentAction::SaveConfig,
            AgentAction::SendAgentInfo,
            AgentAction::SendTelemetry { request_id: 0 }
        ]
    ));
    assert_eq!(agent.config().session_token.as_deref(), Some("fresh"));
    assert_eq!(agent.config().device_id.as_deref(), Some("dev-10"));
    assert!(agent.is_authenticated());
    assert!(matches!(
        &agent.on_telemetry_tick()[..],
        [AgentAction::SendTelemetry { request_id: 0 }]
    ));

    // the same token again, or none, changes nothing
    for token in ["fresh", ""] {
        let event = ServerEvent::Authenticated {
            device_id: "other".to_string(),
            session_token: token.to_string(),
        };
        let actions = agent.on_event(Some(event));
        assert_eq!(actions.len(), 2);
        assert_eq!(agent.config().device_id.as_deref(), Some("dev-10"));
        assert_eq!(agent.config().session_token.as_deref(), Some("fresh"));
    }

    assert!(matches!(
        &agent.on_event(Some(ServerEvent::Disconnected))[..],
        [AgentAction::CloseAllSessions]
    ));
    assert!(!agent.is_authenticated());
    assert!(matches!(
        &agent.on_event(None)[..],
        [AgentAction::CloseAllSessions, AgentAction::Stop]
    ));
    assert!(matches!(
        &agent.on_interrupt()[..],
        [AgentAction::CloseAllSessions, AgentAction::Stop]
    ));
}

#[test]
fn routes_by_opcode_and_mode() {
    for kind in [0x20u8, 0x21, 0x22, 0x23, 0x10, 0x11, 0x12, 0x13, 0x14, 0x15] {
        assert!(is_session_message(kind));
        assert_eq!(route(kind, false, false), Route::Session);
        assert_eq!(route(kind, false, true), Route::Session);
        assert_eq!(route(kind, true, true), Route::Helper);
        assert_eq!(route(kind, true, false), Route::Dropped);
    }
    assert_eq!(DESKTOP_FRAME, 0x12);
    assert_eq!(DESKTOP_RESIZE, 0x14);
    for kind in [0x0Fu8, 0x16, 0x1F, 0x24, HEARTBEAT, 0x00, 0xFF] {
        assert!(!is_session_message(kind));
        assert_eq!(route(kind, true, true), Route::Dropped);
    }
    for kind in [0x30u8, 0x32, 0x34, 0x35, 0x37] {
        assert!(is_file_message(kind));
        assert_eq!(route(kind, true, true), Route::File);
    }
    for kind in [0x31u8, 0x33, 0x36, 0x38] {
        assert!(!is_file_message(kind));
    }
    assert_eq!(route(COMMAND, true, false), Route::Command);
    assert_eq!(route(TELEMETRY_REQ, false, false), Route::Telemetry);
}

#[test]
fn pipe_framing_rejects_bad_lengths() {
    assert_eq!(MAX_IPC_MESSAGE_SIZE, 16 * 1024 * 1024);
    let mut reader = IpcReader::new();
    assert_eq!(reader.recv_raw(&[0, 0, 0, 0]), Err(IpcError::Empty));
    assert_eq!(reader.wanted(), 0);
    assert_eq!(reader.recv_raw(&[1, 0, 0, 0]), Err(IpcError::Misread));

    let mut reader = IpcReader::new();
    assert_eq!(reader.recv_raw(&[1, 0, 0, 1]), Err(IpcError::TooLarge { size: 0x0100_0001 }));

    let mut reader = IpcReader::new();
    assert_eq!(reader.recv_raw(&[0, 0, 0, 1]), Ok(None));
    assert_eq!(reader.wanted(), 16 * 1024 * 1024);

    let mut reader = IpcReader::new();
    assert_eq!(reader.recv_raw(&[3, 0, 0]), Err(IpcError::Misread));

    let mut reader = IpcReader::new();
    assert_eq!(reader.recv_raw(&[2, 0, 0, 0]), Ok(None));
    assert_eq!(reader.recv_raw(&[9]), Err(IpcError::Misread));
}

#[test]
fn pipe_frame_is_length_then_bytes() {
    assert_eq!(IpcWriter::frame(&[0xAA, 0xBB, 0xCC]), Ok(vec![3, 0, 0, 0, 0xAA, 0xBB, 0xCC]));
    let long = vec![1u8; 0x0001_0203];
    assert_eq!(&IpcWriter::frame(&long).unwrap()[..4], &[0x03, 0x02, 0x01, 0x00]);
}

#[test]
fn pipe_writer_refuses_what_the_reader_would_refuse() {
    assert_eq!(IpcWriter::frame(&[]), Err(IpcError::Empty));
    let largest = vec![0u8; MAX_IPC_MESSAGE_SIZE as usize];
    let framed = IpcWriter::frame(&largest).unwrap();
    assert_eq!(&framed[..4], &[0, 0, 0, 1]);
    assert_eq!(framed.len(), 4 + largest.len());
    let mut reader = IpcReader::new();
    assert_eq!(reader.recv_raw(&framed[..4]), Ok(None));
    assert_eq!(reader.wanted(), largest.len());
    let too_long = vec![0u8; MAX_IPC_MESSAGE_SIZE as usize + 1];
    assert_eq!(
        IpcWriter::frame(&too_long),
        Err(IpcError::TooLarge { size: MAX_IPC_MESSAGE_SIZE + 1 })
    );
}

#[test]
fn pipe_names() {
    assert_eq!(pipe_name_for_device("abc-123"), r"\\.\pipe\android-remote-agent-abc-123");
    assert_eq!(helper_pipe_name(&config()), r"\\.\pipe\android-remote-agent-dev-9");
    let mut nameless = config();
    nameless.device_id = None;
    assert_eq!(helper_pipe_name(&nameless), r"\\.\pipe\android-remote-agent-default");
    assert_eq!(
        helper_command_line(r"C:\agent.exe", r"\\.\pipe\p"),
        "\"C:\\agent.exe\" --helper-mode --pipe-name \"\\\\.\\pipe\\p\" --log-level info"
    );
}

#[test]
fn supervisor_respawns_dead_helpers() {
    assert_eq!(HELPER_CHECK_INTERVAL_SECS, 5);
    assert_eq!(supervise(true, Some(2)), SupervisorAction::Nothing);
    assert_eq!(supervise(true, None), SupervisorAction::Nothing);
    assert_eq!(supervise(false, Some(2)), SupervisorAction::Respawn { session_id: 2 });
    assert_eq!(supervise(false, None), SupervisorAction::WaitForSession);
    assert_eq!(active_console_session(0xFFFF_FFFF), None);
    assert_eq!(active_console_session(0), Some(0));
    assert_eq!(active_console_session(3), Some(3));
    assert!(is_system_service_context(0));
    assert!(!is_system_service_context(1));
}

#[test]
fn helper_retries_the_pipe_ten_times() {
    assert_eq!((PIPE_CONNECT_ATTEMPTS, PIPE_CONNECT_DELAY_MS), (10, 500));
    for attempt in 1..10 {
        assert_eq!(connect_retry(attempt, 10, 500), RetryStep::Retry { delay_ms: 500 });
    }
    assert_eq!(connect_retry(10, 10, 500), RetryStep::GiveUp);
    assert_eq!(connect_retry(11, 10, 500), RetryStep::GiveUp);
}

#[test]
fn relay_forwards_whole_frames_only() {
    let frame = Message::session(TERMINAL_DATA, 4, 0, b"out".to_vec()).encode();
    match relay_from_helper(&frame) {
        RelayAction::Forward(bytes) => assert_eq!(bytes, frame),
        other => panic!("unexpected {:?}", other),
    }
    let mut with_tail = frame.clone();
    with_tail.extend_from_slice(&[1, 2, 3]);
    match relay_from_helper(&with_tail) {
        RelayAction::Forward(bytes) => assert_eq!(bytes, frame),
        other => panic!("unexpected {:?}", other),
    }
    assert!(matches!(relay_from_helper(&frame[..10]), RelayAction::Incomplete));
}
