use remote_agent::desktop::DesktopConfig;
use remote_agent::protocol::{
    DesktopOpenRequest, Message, TerminalOpenRequest, DESKTOP_CLOSE, DESKTOP_FRAME, DESKTOP_INPUT,
    DESKTOP_OPEN, DESKTOP_QUALITY, DESKTOP_RESIZE, HEARTBEAT, TERMINAL_CLOSE, TERMINAL_DATA,
    TERMINAL_OPEN, TERMINAL_RESIZE,
};
use remote_agent::screen::{frame_interval_ms, DesktopSession, ScreenState};
use remote_agent::session::{
    OpenPayload, SessionAction, SessionError, SessionKind, SessionManager, DATA_QUEUE_BOUND,
    QUALITY_QUEUE_BOUND, RESIZE_QUEUE_BOUND,
};
use remote_agent::terminal::{
    ActionResult, ShellState, TerminalAction, TerminalEvent, TerminalSession,
};

fn terminal_request() -> OpenPayload {
    OpenPayload::Terminal(TerminalOpenRequest { shell: None, cols: 80, rows: 24 })
}

fn desktop_request(quality: u8, fps: u16) -> OpenPayload {
    OpenPayload::Desktop(DesktopOpenRequest { quality, fps, encoding: "jpeg".to_string() })
}

fn copy(rgb: Vec<u8>, _w: u32, _h: u32, _q: u8) -> Result<Vec<u8>, String> {
    Ok(rgb)
}

#[test]
fn queue_bounds_are_as_specified() {
    assert_eq!(DATA_QUEUE_BOUND, 256);
    assert_eq!(RESIZE_QUEUE_BOUND, 16);
    assert_eq!(QUALITY_QUEUE_BOUND, 8);
}

#[test]
fn shell_open_and_echo() {
    let mut manager = SessionManager::new();
    let open = Message::session(TERMINAL_OPEN, 7, 0, b"{\"cols\":80,\"rows\":24}".to_vec());
    let out = manager.handle_message(open, terminal_request());
    assert!(out.error.is_none());
    assert_eq!(out.actions.len(), 1);
    match &out.actions[0] {
        SessionAction::OpenTerminal { channel, shell, cols, rows } => {
            assert_eq!((*channel, *cols, *rows), (7, 80, 24));
            assert!(shell.is_none());
        }
        other => panic!("unexpected {:?}", other),
    }
    assert!(manager.has_terminal(7));
    assert!(manager.has_active_sessions());

    let data = Message::session(TERMINAL_DATA, 7, 0, b"echo hi\n".to_vec());
    let out = manager.handle_message(data, OpenPayload::Nothing);
    assert_eq!(out.actions.len(), 1);
    match &out.actions[0] {
        SessionAction::TerminalInput { channel, data } => {
            assert_eq!(*channel, 7);
            assert_eq!(data, &b"echo hi\n".to_vec());
        }
        other => panic!("unexpected {:?}", other),
    }

    // the shell's answer goes out as TERMINAL_DATA on the same channel
    let mut shell = TerminalSession::new(7);
    shell.on_spawned(true);
    match shell.on_event(TerminalEvent::Output(b"hi\n".to_vec())) {
        TerminalAction::Send(m) => {
            assert_eq!(m.header.msg_type, TERMINAL_DATA);
            assert_eq!(m.header.channel, 7);
            assert_eq!(m.header.request_id, 0);
            assert!(m.payload.windows(2).any(|w| w == b"hi"));
        }
        other => panic!("unexpected {:?}", other),
    }
}

#[test]
fn second_open_closes_the_old_shell_first() {
    let mut manager = SessionManager::new();
    manager.handle_message(Message::session(TERMINAL_OPEN, 3, 0, vec![]), terminal_request());
    let again = manager.handle_message(
        Message::session(TERMINAL_OPEN, 3, 0, vec![]),
        OpenPayload::Terminal(TerminalOpenRequest {
            shell: Some("/bin/zsh".to_string()),
            cols: 120,
            rows: 40,
        }),
    );
    assert_eq!(again.actions.len(), 2);
    assert!(matches!(again.actions[0], SessionAction::CloseTerminal { channel: 3 }));
    match &again.actions[1] {
        SessionAction::OpenTerminal { channel, shell, cols, rows } => {
            assert_eq!((*channel, *cols, *rows), (3, 120, 40));
            assert_eq!(shell.as_deref(), Some("/bin/zsh"));
        }
        other => panic!("unexpected {:?}", other),
    }
    assert!(manager.has_terminal(3));
}

#[test]
fn unreadable_open_closes_the_old_session_and_opens_none() {
    let mut manager = SessionManager::new();
    manager.handle_message(Message::session(TERMINAL_OPEN, 3, 0, vec![]), terminal_request());
    let out = manager.handle_message(
        Message::session(TERMINAL_OPEN, 3, 0, b"not json".to_vec()),
        OpenPayload::Nothing,
    );
    assert_eq!(out.error, Some(SessionError::BadTerminalOpen));
    assert_eq!(out.actions.len(), 1);
    assert!(matches!(out.actions[0], SessionAction::CloseTerminal { channel: 3 }));
    assert!(!manager.has_terminal(3));

    let out = manager.handle_message(
        Message::session(DESKTOP_OPEN, 3, 0, b"not json".to_vec()),
        terminal_request(),
    );
    assert_eq!(out.error, Some(SessionError::BadDesktopOpen));
    assert!(out.actions.is_empty());
}

#[test]
fn frames_for_channels_without_a_session_are_dropped() {
    let mut manager = SessionManager::new();
    for kind in [TERMINAL_DATA, TERMINAL_RESIZE, TERMINAL_CLOSE, DESKTOP_INPUT, DESKTOP_CLOSE] {
        let out = manager.handle_message(
            Message::session(kind, 9, 0, vec![1, 2, 3, 4]),
            OpenPayload::Nothing,
        );
        assert!(out.actions.is_empty());
        assert!(out.error.is_none());
    }
    let out = manager
        .handle_message(Message::session(DESKTOP_QUALITY, 9, 0, vec![]), desktop_request(50, 10));
    assert!(out.actions.is_empty());
    let out = manager.handle_message(Message::control(HEARTBEAT, 0, vec![]), OpenPayload::Nothing);
    assert!(out.actions.is_empty());
    assert!(!manager.has_active_sessions());
}

#[test]
fn terminal_resize_reads_columns_then_rows() {
    let mut manager = SessionManager::new();
    manager.handle_message(Message::session(TERMINAL_OPEN, 2, 0, vec![]), terminal_request());
    let out = manager.handle_message(
        Message::session(TERMINAL_RESIZE, 2, 0, vec![120, 0, 40, 0, 99]),
        OpenPayload::Nothing,
    );
    assert!(matches!(
        out.actions[..],
        [SessionAction::TerminalResize { channel: 2, cols: 120, rows: 40 }]
    ));
    let short = manager.handle_message(
        Message::session(TERMINAL_RESIZE, 2, 0, vec![120, 0, 40]),
        OpenPayload::Nothing,
    );
    assert!(short.actions.is_empty());
}

#[test]
fn desktop_sessions_are_kept_apart_from_shells() {
    let mut manager = SessionManager::new();
    manager.handle_message(Message::session(TERMINAL_OPEN, 5, 0, vec![]), terminal_request());
    let out =
        manager.handle_message(Message::session(DESKTOP_OPEN, 5, 0, vec![]), desktop_request(70, 60));
    assert_eq!(out.actions.len(), 1);
    match &out.actions[0] {
        SessionAction::OpenDesktop { channel, config } => {
            assert_eq!(*channel, 5);
            assert_eq!((config.quality, config.fps), (70, 60));
            assert_eq!(config.encoding, "jpeg");
        }
        other => panic!("unexpected {:?}", other),
    }
    assert!(manager.has_terminal(5) && manager.has_desktop(5));
    let input = manager
        .handle_message(Message::session(DESKTOP_INPUT, 5, 0, vec![1, 2, 0, 3, 0]), OpenPayload::Nothing);
    assert!(matches!(&input.actions[..], [SessionAction::DesktopInput { channel: 5, data }] if data == &vec![1, 2, 0, 3, 0]));
    let quality = manager
        .handle_message(Message::session(DESKTOP_QUALITY, 5, 0, vec![]), desktop_request(30, 5));
    assert!(matches!(&quality.actions[..], [SessionAction::DesktopQuality { channel: 5, config }] if config.quality == 30 && config.fps == 5));
    let unreadable =
        manager.handle_message(Message::session(DESKTOP_QUALITY, 5, 0, vec![]), OpenPayload::Nothing);
    assert!(unreadable.actions.is_empty() && unreadable.error.is_none());
    let closed =
        manager.handle_message(Message::session(DESKTOP_CLOSE, 5, 0, vec![]), OpenPayload::Nothing);
    assert!(matches!(closed.actions[..], [SessionAction::CloseDesktop { channel: 5 }]));
    assert!(manager.has_terminal(5) && !manager.has_desktop(5));
}

#[test]
fn close_all_closes_shells_then_screens_in_channel_order() {
    let mut manager = SessionManager::new();
    for channel in [9u16, 2, 65535] {
        manager.open_terminal(channel, Some(TerminalOpenRequest { shell: None, cols: 1, rows: 1 }));
    }
    for channel in [4u16, 0] {
        manager.open_desktop(
            channel,
            Some(DesktopOpenRequest { quality: 1, fps: 1, encoding: String::new() }),
        );
    }
    let actions = manager.close_all();
    let summary: Vec<(bool, u16)> = actions
        .iter()
        .map(|a| match a {
            SessionAction::CloseTerminal { channel } => (false, *channel),
            SessionAction::CloseDesktop { channel } => (true, *channel),
            other => panic!("unexpected {:?}", other),
        })
        .collect();
    assert_eq!(summary, vec![(false, 2), (false, 9), (false, 65535), (true, 0), (true, 4)]);
    assert!(!manager.has_active_sessions());
    assert!(manager.close_all().is_empty());
}

#[test]
fn an_ended_session_frees_its_channel() {
    let mut manager = SessionManager::new();
    manager.open_terminal(1, Some(TerminalOpenRequest { shell: None, cols: 1, rows: 1 }));
    manager.session_ended(SessionKind::Screen, 1);
    assert!(manager.has_terminal(1));
    manager.session_ended(SessionKind::Shell, 1);
    assert!(!manager.has_terminal(1));
    assert!(manager.close_terminal(1).actions.is_empty());
}

#[test]
fn terminal_session_runs_until_its_shell_or_queue_ends() {
    let mut s = TerminalSession::new(11);
    assert_eq!(s.state(), ShellState::Spawning);
    assert_eq!(s.channel(), 11);
    // before the shell runs nothing is asked for
    assert!(matches!(s.on_event(TerminalEvent::Input(vec![1])), TerminalAction::Nothing));
    s.on_spawned(true);
    assert_eq!(s.state(), ShellState::Running);
    assert!(matches!(s.on_event(TerminalEvent::Output(vec![])), TerminalAction::Skip));
    match s.on_event(TerminalEvent::Input(b"ls\n".to_vec())) {
        TerminalAction::Write(data) => assert_eq!(data, b"ls\n".to_vec()),
        other => panic!("unexpected {:?}", other),
    }
    assert!(matches!(
        s.on_event(TerminalEvent::Resize { cols: 100, rows: 30 }),
        TerminalAction::Resize { cols: 100, rows: 30 }
    ));
    s.on_action_done(ActionResult::ResizeFailed, true);
    assert_eq!(s.state(), ShellState::Running);
    assert!(matches!(s.on_event(TerminalEvent::ResizeClosed), TerminalAction::Nothing));
    assert_eq!(s.state(), ShellState::Running);
    assert!(s.closing_frame().is_none());
    assert!(matches!(s.on_event(TerminalEvent::InputClosed), TerminalAction::Nothing));
    assert_eq!(s.state(), ShellState::Ending);
    let close = s.closing_frame().unwrap();
    assert_eq!(close.header.msg_type, TERMINAL_CLOSE);
    assert_eq!(close.header.channel, 11);
    assert!(close.payload.is_empty());
}

#[test]
fn terminal_session_ends_on_failures_and_dead_shells() {
    for (result, alive, ends) in [
        (ActionResult::Done, true, false),
        (ActionResult::Done, false, true),
        (ActionResult::SendFailed, true, true),
        (ActionResult::WriteFailed, true, true),
        (ActionResult::ResizeFailed, true, false),
    ] {
        let mut s = TerminalSession::new(1);
        s.on_spawned(true);
        s.on_action_done(result, alive);
        assert_eq!(s.state() == ShellState::Ending, ends);
    }
    let mut failed = TerminalSession::new(1);
    failed.on_spawned(false);
    assert_eq!(failed.state(), ShellState::Ending);
    let mut gone = TerminalSession::new(1);
    gone.on_spawned(true);
    assert!(matches!(gone.on_event(TerminalEvent::OutputEnded), TerminalAction::Nothing));
    assert_eq!(gone.state(), ShellState::Ending);
}

#[test]
fn desktop_resize_is_the_first_frame_of_a_screen_session() {
    let config = DesktopConfig { quality: 70, fps: 60, encoding: "jpeg".to_string() };
    let mut session = DesktopSession::new(3, &config);
    assert_eq!(session.state(), ScreenState::Initializing);
    assert_eq!(session.frame_interval(), 16);
    // no frame before the size is known
    assert!(session.on_frame(&[0u8; 16], 8, copy).is_empty());
    let resize = session.on_initialized(128, 128).unwrap();
    assert_eq!(resize.header.msg_type, DESKTOP_RESIZE);
    assert_eq!(resize.header.channel, 3);
    assert_eq!(resize.payload, vec![128, 0, 128, 0]);
    assert_eq!(session.state(), ScreenState::Streaming);
    assert!(session.on_initialized(64, 64).is_none());
}

#[test]
fn screen_single_tile_diff() {
    let config = DesktopConfig { quality: 70, fps: 60, encoding: "jpeg".to_string() };
    let mut session = DesktopSession::new(3, &config);
    session.on_initialized(128, 128).unwrap();
    let white = vec![0xFFu8; 128 * 128 * 4];
    let first = session.on_frame(&white, 128 * 4, copy);
    assert_eq!(first.len(), 4);
    let mut origins = Vec::new();
    for m in &first {
        assert_eq!(m.header.msg_type, DESKTOP_FRAME);
        assert_eq!(m.header.channel, 3);
        // x, y, w, h, encoding, flags
        assert_eq!(&m.payload[4..10], &[64, 0, 64, 0, 0, 1]);
        assert_eq!(m.payload.len(), 10 + 64 * 64 * 3);
        origins.push((m.payload[0], m.payload[2]));
    }
    assert_eq!(origins, vec![(0, 0), (64, 0), (0, 64), (64, 64)]);

    let mut changed = white.clone();
    let at = (10 * 128 + 10) * 4;
    changed[at] = 0;
    changed[at + 1] = 0;
    changed[at + 2] = 0;
    let second = session.on_frame(&changed, 128 * 4, copy);
    assert_eq!(second.len(), 1);
    assert_eq!(&second[0].payload[..10], &[0, 0, 0, 0, 64, 0, 64, 0, 0, 0]);
    // the same frame again yields nothing
    assert!(session.on_frame(&changed, 128 * 4, copy).is_empty());
}

#[test]
fn quality_change_forces_a_keyframe() {
    let config = DesktopConfig { quality: 70, fps: 15, encoding: "jpeg".to_string() };
    let mut session = DesktopSession::new(1, &config);
    session.on_initialized(64, 64).unwrap();
    let frame = vec![1u8; 64 * 64 * 4];
    assert_eq!(session.on_frame(&frame, 256, copy).len(), 1);
    assert!(session.on_frame(&frame, 256, copy).is_empty());
    session.set_quality(40);
    let after = session.on_frame(&frame, 256, copy);
    assert_eq!(after.len(), 1);
    assert_eq!(after[0].payload[9], 1);
}

#[test]
fn failed_encoding_sends_nothing_and_keeps_the_session() {
    let config = DesktopConfig::default();
    let mut session = DesktopSession::new(1, &config);
    session.on_initialized(64, 64).unwrap();
    let frame = vec![1u8; 64 * 64 * 4];
    let failing = |_rgb: Vec<u8>, _w: u32, _h: u32, _q: u8| -> Result<Vec<u8>, String> {
        Err("no encoder".to_string())
    };
    assert!(session.on_frame(&frame, 256, failing).is_empty());
    assert_eq!(session.state(), ScreenState::Streaming);
    assert!(session.closing_frame().is_none());
    session.close();
    assert_eq!(session.state(), ScreenState::Ending);
    assert!(session.on_frame(&frame, 256, copy).is_empty());
    let close = session.closing_frame().unwrap();
    assert_eq!(close.header.msg_type, DESKTOP_CLOSE);
    assert_eq!(close.header.channel, 1);
}

#[test]
fn failed_capture_setup_ends_the_session() {
    let mut session = DesktopSession::new(8, &DesktopConfig::default());
    session.on_init_failed();
    assert_eq!(session.state(), ScreenState::Ending);
    assert!(session.on_initialized(10, 10).is_none());
    assert_eq!(session.channel(), 8);
}

#[test]
fn frame_interval_follows_the_rate() {
    assert_eq!(frame_interval_ms(15), 66);
    assert_eq!(frame_interval_ms(60), 16);
    assert_eq!(frame_interval_ms(1), 1000);
    assert_eq!(frame_interval_ms(0), 1000);
    assert_eq!(frame_interval_ms(2000), 0);
}

#[test]
fn close_frames_are_owed_once_a_session_has_ended() {
    let mut shell = TerminalSession::new(4);
    assert!(shell.closing_frame().is_none());
    shell.on_spawned(true);
    assert!(shell.closing_frame().is_none());
    shell.on_event(TerminalEvent::OutputEnded);
    let close = shell.closing_frame().unwrap();
    assert_eq!((close.header.msg_type, close.header.channel), (TERMINAL_CLOSE, 4));
    assert_eq!(close.header.request_id, 0);

    let mut failed = TerminalSession::new(6);
    failed.on_spawned(false);
    assert_eq!(failed.closing_frame().unwrap().header.channel, 6);

    let mut screen = DesktopSession::new(9, &DesktopConfig::default());
    assert!(screen.closing_frame().is_none());
    screen.on_init_failed();
    let close = screen.closing_frame().unwrap();
    assert_eq!((close.header.msg_type, close.header.channel), (DESKTOP_CLOSE, 9));
    assert!(close.payload.is_empty());
}

#[test]
fn the_announced_size_is_that_of_the_encoder() {
    let mut session = DesktopSession::new(2, &DesktopConfig::default());
    let resize = session.on_initialized(70_000, 300).unwrap();
    assert_eq!(resize.header.msg_type, DESKTOP_RESIZE);
    assert_eq!(resize.payload, vec![0xFF, 0xFF, 0x2C, 0x01]);
    let mut plain = DesktopSession::new(2, &DesktopConfig::default());
    assert_eq!(plain.on_initialized(1920, 1080).unwrap().payload, vec![0x80, 0x07, 0x38, 0x04]);
}
