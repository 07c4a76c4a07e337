use remote_agent::input::{
    handle_desktop_input, parse_desktop_input, ButtonAction, InputEvent, InputInjector, KeyAction,
    Modifiers, MouseButton,
};
use remote_agent::keymap::{
    char_to_keycode, key_inputs, normalize_coords, scroll_clicks, still_active, wheel_data,
    x11_button, x11_button_event, x11_keycode, x11_modifiers, KeyInput,
};
use remote_agent::platform::PlatformError;

#[derive(Default)]
struct Recorder {
    calls: Vec<String>,
    fail: bool,
}

impl Recorder {
    fn note(&mut self, call: String) -> Result<(), PlatformError> {
        self.calls.push(call);
        if self.fail {
            Err(PlatformError::new("injector failed".to_string()))
        } else {
            Ok(())
        }
    }
}

impl InputInjector for Recorder {
    fn mouse_move(&mut self, x: u32, y: u32) -> Result<(), PlatformError> {
        self.note(format!("move {} {}", x, y))
    }

    fn mouse_button(&mut self, btn: MouseButton, action: ButtonAction) -> Result<(), PlatformError> {
        self.note(format!("button {:?} {:?}", btn, action))
    }

    fn mouse_scroll(&mut self, dx: i32, dy: i32) -> Result<(), PlatformError> {
        self.note(format!("scroll {} {}", dx, dy))
    }

    fn key_press(&mut self, scancode: u16, action: KeyAction, mods: Modifiers) -> Result<(), PlatformError> {
        self.note(format!(
            "key {} {:?} {}{}{}{}",
            scancode, action, mods.shift as u8, mods.ctrl as u8, mods.alt as u8, mods.meta as u8
        ))
    }

    fn type_text(&mut self, text: &str) -> Result<(), PlatformError> {
        self.note(format!("text {}", text))
    }
}

fn handled(payload: &[u8]) -> Vec<String> {
    let mut recorder = Recorder::default();
    handle_desktop_input(payload, &mut recorder).unwrap();
    recorder.calls
}

#[test]
fn mouse_move_reads_absolute_pixels() {
    assert_eq!(handled(&[0x01, 0x34, 0x12, 0xFF, 0xFF]), vec!["move 4660 65535"]);
    assert_eq!(handled(&[0x01, 1, 0, 2, 0, 99]), vec!["move 1 2"]);
    assert!(handled(&[0x01, 1, 0, 2]).is_empty());
}

#[test]
fn mouse_button_reads_button_and_action() {
    assert_eq!(handled(&[0x02, 0, 0]), vec!["button Left Press"]);
    assert_eq!(handled(&[0x02, 1, 1]), vec!["button Right Release"]);
    assert_eq!(handled(&[0x02, 2, 0]), vec!["button Middle Press"]);
    assert!(handled(&[0x02, 3, 0]).is_empty());
    assert!(handled(&[0x02, 0, 2]).is_empty());
    assert!(handled(&[0x02, 0]).is_empty());
}

#[test]
fn mouse_scroll_reads_signed_notches() {
    assert_eq!(handled(&[0x03, 0xFF, 0xFF, 0x03, 0x00]), vec!["scroll -1 3"]);
    assert_eq!(handled(&[0x03, 0x00, 0x80, 0xFF, 0x7F]), vec!["scroll -32768 32767"]);
    assert!(handled(&[0x03, 0, 0, 0]).is_empty());
}

#[test]
fn key_event_reads_scancode_action_and_modifiers() {
    assert_eq!(handled(&[0x04, 0x1E, 0x00, 0, 0b0101]), vec!["key 30 Press 1010"]);
    assert_eq!(handled(&[0x04, 0x00, 0x01, 1, 0b1010]), vec!["key 256 Release 0101"]);
    assert_eq!(handled(&[0x04, 0x1E, 0x00, 0, 0xF0, 7]), vec!["key 30 Press 0000"]);
    assert!(handled(&[0x04, 0x1E, 0x00, 2, 0]).is_empty());
    assert!(handled(&[0x04, 0x1E, 0x00, 0]).is_empty());
}

#[test]
fn type_text_reads_utf8() {
    assert_eq!(handled("\u{5}héllo ✓".as_bytes()), vec!["text héllo ✓"]);
    assert!(handled(&[0x05]).is_empty());
    assert!(handled(&[0x05, 0xFF, 0xFE]).is_empty());
    assert!(handled(&[0x05, b'a', 0xC3]).is_empty());
}

#[test]
fn empty_and_unknown_payloads_are_passed_over() {
    assert!(handled(&[]).is_empty());
    assert!(handled(&[0x00, 1, 2, 3, 4]).is_empty());
    assert!(handled(&[0x06, 1, 2, 3, 4]).is_empty());
    assert!(parse_desktop_input(&[0x09]).is_none());
}

#[test]
fn injector_failures_come_back() {
    let mut failing = Recorder { calls: Vec::new(), fail: true };
    let err = handle_desktop_input(&[0x01, 1, 0, 2, 0], &mut failing).unwrap_err();
    assert_eq!(err.message, "injector failed");
    assert_eq!(failing.calls.len(), 1);
    // what encodes no event never reaches the injector
    assert!(handle_desktop_input(&[0x02, 9, 9], &mut failing).is_ok());
    assert_eq!(failing.calls.len(), 1);
    assert!(matches!(parse_desktop_input(&[0x05, b'x']), Some(InputEvent::Text(t)) if t == "x"));
    assert!(handle_desktop_input(&[0x05, b'x'], &mut failing).is_err());
}

#[test]
fn keycodes_of_characters() {
    assert_eq!(char_to_keycode('a'), Some((38, false)));
    assert_eq!(char_to_keycode('z'), Some((63, false)));
    assert_eq!(char_to_keycode('A'), Some((38, true)));
    assert_eq!(char_to_keycode('Z'), Some((63, true)));
    assert_eq!(char_to_keycode('0'), Some((19, false)));
    assert_eq!(char_to_keycode('1'), Some((10, false)));
    assert_eq!(char_to_keycode('9'), Some((18, false)));
    assert_eq!(char_to_keycode(' '), Some((65, false)));
    assert_eq!(char_to_keycode('\n'), Some((36, false)));
    assert_eq!(char_to_keycode('\r'), Some((36, false)));
    assert_eq!(char_to_keycode('\t'), Some((23, false)));
    assert_eq!(char_to_keycode('~'), Some((49, true)));
    assert_eq!(char_to_keycode('`'), Some((49, false)));
    assert_eq!(char_to_keycode('?'), Some((61, true)));
    assert_eq!(char_to_keycode('('), Some((18, true)));
    assert_eq!(char_to_keycode('|'), Some((51, true)));
    assert_eq!(char_to_keycode('é'), None);
    assert_eq!(char_to_keycode('\u{0}'), None);
}

#[test]
fn x11_codes() {
    assert_eq!(x11_keycode(30), 38);
    assert_eq!(x11_keycode(247), 255);
    assert_eq!(x11_keycode(248), 0);
    assert_eq!(x11_keycode(65535), 7);
    assert_eq!(
        (x11_button(MouseButton::Left), x11_button(MouseButton::Middle), x11_button(MouseButton::Right)),
        (1, 2, 3)
    );
    assert_eq!((x11_button_event(ButtonAction::Press), x11_button_event(ButtonAction::Release)), (4, 5));
    assert_eq!(scroll_clicks(0, 4, 5), None);
    assert_eq!(scroll_clicks(-3, 4, 5), Some((4, 3)));
    assert_eq!(scroll_clicks(2, 6, 7), Some((7, 2)));
    assert_eq!(scroll_clicks(i32::MIN, 4, 5), Some((4, 2147483648)));
    let all = Modifiers { shift: true, ctrl: true, alt: true, meta: true };
    assert_eq!(x11_modifiers(all), vec![50, 37, 64, 133]);
    assert_eq!(x11_modifiers(Modifiers { ctrl: true, ..Modifiers::default() }), vec![37]);
    assert!(x11_modifiers(Modifiers::default()).is_empty());
}

#[test]
fn windows_key_sequences_and_coordinates() {
    let mods = Modifiers { shift: true, ctrl: false, alt: true, meta: false };
    let down = |scancode| KeyInput { scancode, key_up: false };
    let up = |scancode| KeyInput { scancode, key_up: true };
    assert_eq!(key_inputs(0x1E, KeyAction::Press, mods), vec![down(0x2A), down(0x38), down(0x1E)]);
    assert_eq!(key_inputs(0x1E, KeyAction::Release, mods), vec![up(0x1E), up(0x38), up(0x2A)]);
    let all = Modifiers { shift: true, ctrl: true, alt: true, meta: true };
    assert_eq!(
        key_inputs(1, KeyAction::Release, all),
        vec![up(1), up(0x5B), up(0x38), up(0x1D), up(0x2A)]
    );
    assert_eq!(key_inputs(1, KeyAction::Press, Modifiers::default()), vec![down(1)]);

    assert_eq!(normalize_coords(0, 0, 1920, 1080), (0, 0));
    assert_eq!(normalize_coords(960, 540, 1920, 1080), (32767, 32767));
    assert_eq!(normalize_coords(1920, 1080, 1920, 1080), (65535, 65535));
    assert_eq!(normalize_coords(100, 100, 0, -5), (6553500, 6553500));
    assert_eq!(normalize_coords(65535, 0, 1, 1), ((65535u32 * 65535u32) as i32, 0));

    assert_eq!(wheel_data(1), 120);
    assert_eq!(wheel_data(-1), (-120i32) as u32);
    assert_eq!(wheel_data(0), 0);
    assert_eq!(wheel_data(i32::MAX), i32::MAX.wrapping_mul(120) as u32);
    assert!(still_active(259));
    assert!(!still_active(0));
}
