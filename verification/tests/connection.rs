use remote_agent::backoff::{backoff_delay_ms, reconnect_delay};
use remote_agent::config::AgentConfig;
use remote_agent::connection::{
    auth_step, build_auth_request, AuthError, AuthStep, ConnAction, ConnectionState, Connector,
    ServerEvent, TickAction, AUTH_TIMEOUT_SECS,
};
use remote_agent::protocol::{
    auth_response, heartbeat, AuthResponse, Message, AUTH_REQUEST, HEARTBEAT_ACK, TERMINAL_DATA,
};

fn config() -> AgentConfig {
    let mut c = AgentConfig::default();
    c.server_url = "wss://server:7899".to_string();
    c.session_token = Some("tok".to_string());
    c
}

fn accepted() -> AuthResponse {
    AuthResponse {
        success: true,
        device_id: Some("dev-1".to_string()),
        session_token: Some("fresh".to_string()),
        error: None,
    }
}

fn connected(now_ms: u64) -> Connector {
    let mut c = Connector::new(30);
    assert_eq!(c.begin_attempt(&config(), 123), 0);
    assert!(c.start_auth(b"{}".to_vec()).is_some());
    assert!(c.on_auth_response(accepted(), now_ms).is_ok());
    assert_eq!(c.state(), ConnectionState::Connected);
    c
}

#[test]
fn heartbeat_round_trip_answers_with_an_ack() {
    let mut c = connected(0);
    let input = [0x03u8, 0, 0, 0, 0, 0, 0, 0, 0];
    let actions = c.on_data(&input, 10);
    assert_eq!(actions.len(), 1);
    match &actions[0] {
        ConnAction::Send(bytes) => assert_eq!(bytes, &vec![0x04u8, 0, 0, 0, 0, 0, 0, 0, 0]),
        other => panic!("unexpected action {:?}", other),
    }
}

#[test]
fn authenticated_is_the_first_event_of_an_attempt() {
    let mut c = Connector::new(30);
    assert_eq!(c.state(), ConnectionState::Disconnected);
    c.begin_attempt(&config(), 0);
    assert_eq!(c.state(), ConnectionState::Connecting);
    // nothing is emitted before authentication
    let early = Message::session(TERMINAL_DATA, 1, 0, b"x".to_vec()).encode();
    assert!(c.on_data(&early, 0).is_empty());
    let request = c.start_auth(b"{\"token\":\"tok\"}".to_vec()).unwrap();
    assert_eq!(request[0], AUTH_REQUEST);
    assert_eq!(&request[9..], b"{\"token\":\"tok\"}");
    assert_eq!(c.state(), ConnectionState::Authenticating);
    assert!(c.on_data(&early, 0).is_empty());
    match c.on_auth_response(accepted(), 5) {
        Ok(ServerEvent::Authenticated { device_id, session_token }) => {
            assert_eq!(device_id, "dev-1");
            assert_eq!(session_token, "fresh");
        }
        other => panic!("unexpected {:?}", other),
    }
    // a second response does not authenticate again
    assert!(matches!(c.on_auth_response(accepted(), 6), Err(AuthError::OutOfSequence)));
    let actions = c.on_data(&early, 7);
    assert_eq!(actions.len(), 1);
    match &actions[0] {
        ConnAction::Emit(ServerEvent::Message(m)) => {
            assert_eq!(m.header.channel, 1);
            assert_eq!(m.payload, b"x".to_vec());
        }
        other => panic!("unexpected action {:?}", other),
    }
}

#[test]
fn rejected_authentication_reports_the_reason() {
    let mut c = Connector::new(30);
    c.begin_attempt(&config(), 0);
    c.start_auth(vec![]).unwrap();
    let refused = AuthResponse {
        success: false,
        device_id: None,
        session_token: None,
        error: Some("bad token".to_string()),
    };
    match c.on_auth_response(refused, 0) {
        Err(AuthError::Rejected(reason)) => assert_eq!(reason, "bad token"),
        other => panic!("unexpected {:?}", other),
    }
    assert_eq!(c.state(), ConnectionState::Authenticating);
    assert!(matches!(c.end_attempt(false), ServerEvent::Disconnected));
    assert_eq!(c.attempt(), 1);
    assert_eq!(c.state(), ConnectionState::Reconnecting);
}

#[test]
fn missing_fields_of_the_response_become_empty() {
    let mut c = Connector::new(30);
    c.begin_attempt(&config(), 0);
    c.start_auth(vec![]).unwrap();
    let bare = AuthResponse { success: true, device_id: None, session_token: None, error: None };
    match c.on_auth_response(bare, 0) {
        Ok(ServerEvent::Authenticated { device_id, session_token }) => {
            assert_eq!(device_id, "");
            assert_eq!(session_token, "");
        }
        other => panic!("unexpected {:?}", other),
    }
}

#[test]
fn start_auth_needs_a_begun_attempt() {
    let mut c = Connector::new(30);
    assert!(c.start_auth(vec![1]).is_none());
    assert_eq!(c.state(), ConnectionState::Disconnected);
}

#[test]
fn missing_ack_ends_the_attempt_after_three_intervals() {
    let mut c = connected(1_000);
    match c.on_heartbeat_tick(31_000) {
        TickAction::Send(bytes) => assert_eq!(bytes, heartbeat().encode()),
        other => panic!("unexpected {:?}", other),
    }
    // exactly three intervals are still in time
    assert!(matches!(c.on_heartbeat_tick(91_000), TickAction::Send(_)));
    match c.on_heartbeat_tick(91_001) {
        TickAction::TimedOut(ServerEvent::Disconnected) => {}
        other => panic!("unexpected {:?}", other),
    }
    assert_eq!(c.state(), ConnectionState::Reconnecting);
    assert_eq!(c.attempt(), 1);
    assert!(matches!(c.on_heartbeat_tick(200_000), TickAction::Idle));
}

#[test]
fn an_ack_restarts_the_clock() {
    let mut c = connected(0);
    let ack = Message::control(HEARTBEAT_ACK, 0, vec![]).encode();
    assert!(c.on_data(&ack, 80_000).is_empty());
    assert!(matches!(c.on_heartbeat_tick(170_000), TickAction::Send(_)));
    assert!(matches!(c.on_heartbeat_tick(170_001), TickAction::TimedOut(_)));
}

#[test]
fn inbound_frames_are_reassembled_across_reads() {
    let mut c = connected(0);
    let mut stream = Message::session(TERMINAL_DATA, 4, 0, b"one".to_vec()).encode();
    stream.extend_from_slice(&heartbeat().encode());
    stream.extend_from_slice(&Message::session(TERMINAL_DATA, 5, 0, b"two".to_vec()).encode());
    let (a, b) = stream.split_at(14);
    let first = c.on_data(a, 1);
    assert_eq!(first.len(), 1);
    let second = c.on_data(b, 2);
    assert_eq!(second.len(), 2);
    assert!(matches!(&second[0], ConnAction::Send(bytes) if bytes[0] == HEARTBEAT_ACK));
    match &second[1] {
        ConnAction::Emit(ServerEvent::Message(m)) => {
            assert_eq!(m.header.channel, 5);
            assert_eq!(m.payload, b"two".to_vec());
        }
        other => panic!("unexpected action {:?}", other),
    }
}

#[test]
fn clean_end_resets_the_attempt_counter() {
    let mut c = Connector::new(30);
    c.begin_attempt(&config(), 0);
    c.end_attempt(false);
    c.begin_attempt(&config(), 0);
    c.end_attempt(false);
    assert_eq!(c.attempt(), 2);
    c.begin_attempt(&config(), 0);
    c.end_attempt(true);
    assert_eq!(c.attempt(), 0);
    c.shutdown();
    assert_eq!(c.state(), ConnectionState::Disconnected);
}

#[test]
fn begin_attempt_waits_according_to_the_failures() {
    let mut c = Connector::new(30);
    assert_eq!(c.begin_attempt(&config(), 500), 0);
    c.end_attempt(false);
    // one failure: base delay with the jitter of the sample, not below the base
    assert_eq!(c.begin_attempt(&config(), 500), 1000);
    c.end_attempt(false);
    assert_eq!(c.begin_attempt(&config(), 999), 2499);
}

#[test]
fn backoff_shape_for_one_to_sixty_seconds() {
    let ranges: [(u128, u128); 7] = [
        (750, 1250),
        (1500, 2500),
        (3000, 5000),
        (6000, 10000),
        (12000, 20000),
        (24000, 40000),
        (45000, 60000),
    ];
    for (i, (low, high)) in ranges.iter().enumerate() {
        let attempt = (i + 1) as u32;
        for sample in [0u32, 1, 250, 499, 500, 501, 750, 999, 1000, 123_456_789] {
            let d = backoff_delay_ms(1, 60, attempt, sample);
            assert!(*low <= d && d <= *high, "attempt {} sample {} gave {}", attempt, sample, d);
            assert!(1000 <= d && d <= 60_000);
        }
    }
}

#[test]
fn backoff_exact_values() {
    assert_eq!(backoff_delay_ms(1, 60, 0, 999), 0);
    // attempt 3: 4 s, scaled by (3000 + 2 * sample) / 4000
    assert_eq!(backoff_delay_ms(1, 60, 3, 0), 3000);
    assert_eq!(backoff_delay_ms(1, 60, 3, 500), 4000);
    assert_eq!(backoff_delay_ms(1, 60, 3, 999), 4998);
    // the sample counts modulo 1000
    assert_eq!(backoff_delay_ms(1, 60, 3, 1500), 4000);
    // attempt 1 never falls below the base
    assert_eq!(backoff_delay_ms(1, 60, 1, 0), 1000);
    assert_eq!(backoff_delay_ms(1, 60, 1, 999), 1249);
    // capped at the maximum
    assert_eq!(backoff_delay_ms(1, 60, 7, 999), 60_000);
    assert_eq!(backoff_delay_ms(1, 60, 40, 0), 45_000);
    assert_eq!(backoff_delay_ms(1, 60, u32::MAX, 500), 60_000);
    // a base above the maximum wins
    assert_eq!(backoff_delay_ms(10, 5, 2, 500), 10_000);
    assert_eq!(backoff_delay_ms(0, 60, 5, 999), 0);
    // nothing is cut off, however long the configured delays are
    assert_eq!(backoff_delay_ms(u64::MAX, u64::MAX, 2, 0), u64::MAX as u128 * 1000);
    assert_eq!(backoff_delay_ms(1 << 62, u64::MAX, 2, 500), (1u128 << 63) * 1000);
    assert_eq!(backoff_delay_ms(1 << 62, u64::MAX, 3, 500), u64::MAX as u128 * 1000);
    assert_eq!(backoff_delay_ms(1 << 62, u64::MAX, 4, 999), u64::MAX as u128 * 1000);
}

#[test]
fn reconnect_delay_reads_the_configuration() {
    let mut c = config();
    c.reconnect_base_delay_secs = 2;
    c.reconnect_max_delay_secs = 10;
    assert_eq!(reconnect_delay(&c, 0, 7), 0);
    assert_eq!(reconnect_delay(&c, 1, 500), 2000);
    assert_eq!(reconnect_delay(&c, 3, 500), 8000);
    assert_eq!(reconnect_delay(&c, 4, 500), 10_000);
}

#[test]
fn auth_request_is_built_from_the_configuration() {
    let req = build_auth_request(&config(), "linux", "x86_64", "host-a", "0.1.0").unwrap();
    assert_eq!(req.token, "tok");
    assert_eq!(req.device_type, "linux");
    assert_eq!(req.os, "linux");
    assert_eq!(req.arch, "x86_64");
    assert_eq!(req.hostname, "host-a");
    assert_eq!(req.agent_version, "0.1.0");
    let mut without = config();
    without.session_token = None;
    assert!(build_auth_request(&without, "linux", "x86_64", "host-a", "0.1.0").is_none());
}

#[test]
fn auth_step_picks_the_response_out() {
    assert_eq!(AUTH_TIMEOUT_SECS, 10);
    let response = auth_response(b"{\"success\":true}".to_vec()).encode();
    match auth_step(&response) {
        AuthStep::Response(payload) => assert_eq!(payload, b"{\"success\":true}".to_vec()),
        other => panic!("unexpected {:?}", other),
    }
    assert!(matches!(auth_step(&heartbeat().encode()), AuthStep::Wait));
    assert!(matches!(auth_step(&response[..12]), AuthStep::Wait));
    assert!(matches!(auth_step(&[]), AuthStep::Wait));
}
