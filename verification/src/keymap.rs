//! What the input back-ends decide before they call the platform: X11 key
//! and button codes, scroll clicks, and the key sequences and coordinates of
//! the Windows input queue.

use vstd::prelude::*;
use crate::input::{ButtonAction, KeyAction, Modifiers, MouseButton};

verus! {

// X11 event types of the XTest extension
pub const MOTION_NOTIFY: u8 = 6;
pub const BUTTON_PRESS: u8 = 4;
pub const BUTTON_RELEASE: u8 = 5;
pub const KEY_PRESS: u8 = 2;
pub const KEY_RELEASE: u8 = 3;

// X11 button codes
pub const X11_BUTTON_LEFT: u8 = 1;
pub const X11_BUTTON_MIDDLE: u8 = 2;
pub const X11_BUTTON_RIGHT: u8 = 3;
pub const X11_BUTTON_SCROLL_UP: u8 = 4;
pub const X11_BUTTON_SCROLL_DOWN: u8 = 5;
pub const X11_BUTTON_SCROLL_LEFT: u8 = 6;
pub const X11_BUTTON_SCROLL_RIGHT: u8 = 7;

// X11 keycodes of the modifier keys
pub const XK_SHIFT_L: u8 = 50;
pub const XK_CONTROL_L: u8 = 37;
pub const XK_ALT_L: u8 = 64;
pub const XK_SUPER_L: u8 = 133;

// Scancodes of the modifier keys on Windows
pub const SCAN_SHIFT_L: u16 = 0x2A;
pub const SCAN_CONTROL_L: u16 = 0x1D;
pub const SCAN_ALT_L: u16 = 0x38;
pub const SCAN_WIN_L: u16 = 0x5B;

/// One wheel notch on Windows.
pub const WHEEL_DELTA: i32 = 120;

/// The exit code of a process that still runs on Windows.
pub const STILL_ACTIVE: u32 = 259;

/// The X11 keycode and the shift state that type an ASCII character on a US
/// keyboard, as this agent maps them; `None` for other characters.
pub open spec fn keycode_of(ch: char) -> Option<(u8, bool)> {
    if 'a' <= ch && ch <= 'z' {
        Some(((ch as u8 - 'a' as u8 + 38) as u8, false))
    } else if 'A' <= ch && ch <= 'Z' {
        Some(((ch as u8 - 'A' as u8 + 38) as u8, true))
    } else if ch == '0' {
        Some((19u8, false))
    } else if '1' <= ch && ch <= '9' {
        Some(((ch as u8 - '1' as u8 + 10) as u8, false))
    } else if ch == ' ' {
        Some((65u8, false))
    } else if ch == '\n' || ch == '\r' {
        Some((36u8, false))
    } else if ch == '\t' {
        Some((23u8, false))
    } else if ch == '-' {
        Some((20u8, false))
    } else if ch == '=' {
        Some((21u8, false))
    } else if ch == '[' {
        Some((34u8, false))
    } else if ch == ']' {
        Some((35u8, false))
    } else if ch == '\\' {
        Some((51u8, false))
    } else if ch == ';' {
        Some((47u8, false))
    } else if ch == '\'' {
        Some((48u8, false))
    } else if ch == ',' {
        Some((59u8, false))
    } else if ch == '.' {
        Some((60u8, false))
    } else if ch == '/' {
        Some((61u8, false))
    } else if ch == '`' {
        Some((49u8, false))
    } else if ch == '!' {
        Some((10u8, true))
    } else if ch == '@' {
        Some((11u8, true))
    } else if ch == '#' {
        Some((12u8, true))
    } else if ch == '$' {
        Some((13u8, true))
    } else if ch == '%' {
        Some((14u8, true))
    } else if ch == '^' {
        Some((15u8, true))
    } else if ch == '&' {
        Some((16u8, true))
    } else if ch == '*' {
        Some((17u8, true))
    } else if ch == '(' {
        Some((18u8, true))
    } else if ch == ')' {
        Some((19u8, true))
    } else if ch == '_' {
        Some((20u8, true))
    } else if ch == '+' {
        Some((21u8, true))
    } else if ch == '{' {
        Some((34u8, true))
    } else if ch == '}' {
        Some((35u8, true))
    } else if ch == '|' {
        Some((51u8, true))
    } else if ch == ':' {
        Some((47u8, true))
    } else if ch == '"' {
        Some((48u8, true))
    } else if ch == '<' {
        Some((59u8, true))
    } else if ch == '>' {
        Some((60u8, true))
    } else if ch == '?' {
        Some((61u8, true))
    } else if ch == '~' {
        Some((49u8, true))
    } else {
        None
    }
}

/// Maps an ASCII character to its X11 keycode and shift state.
pub fn char_to_keycode(ch: char) -> (r: Option<(u8, bool)>)
    ensures
        r == keycode_of(ch),
{
    if 'a' <= ch && ch <= 'z' {
        Some((ch as u8 - 'a' as u8 + 38, false))
    } else if 'A' <= ch && ch <= 'Z' {
        Some((ch as u8 - 'A' as u8 + 38, true))
    } else if ch == '0' {
        Some((19, false))
    } else if '1' <= ch && ch <= '9' {
        Some((ch as u8 - '1' as u8 + 10, false))
    } else if ch == ' ' {
        Some((65, false))
    } else if ch == '\n' || ch == '\r' {
        Some((36, false))
    } else if ch == '\t' {
        Some((23, false))
    } else if ch == '-' {
        Some((20, false))
    } else if ch == '=' {
        Some((21, false))
    } else if ch == '[' {
        Some((34, false))
    } else if ch == ']' {
        Some((35, false))
    } else if ch == '\\' {
        Some((51, false))
    } else if ch == ';' {
        Some((47, false))
    } else if ch == '\'' {
        Some((48, false))
    } else if ch == ',' {
        Some((59, false))
    } else if ch == '.' {
        Some((60, false))
    } else if ch == '/' {
        Some((61, false))
    } else if ch == '`' {
        Some((49, false))
    } else if ch == '!' {
        Some((10, true))
    } else if ch == '@' {
        Some((11, true))
    } else if ch == '#' {
        Some((12, true))
    } else if ch == '$' {
        Some((13, true))
    } else if ch == '%' {
        Some((14, true))
    } else if ch == '^' {
        Some((15, true))
    } else if ch == '&' {
        Some((16, true))
    } else if ch == '*' {
        Some((17, true))
    } else if ch == '(' {
        Some((18, true))
    } else if ch == ')' {
        Some((19, true))
    } else if ch == '_' {
        Some((20, true))
    } else if ch == '+' {
        Some((21, true))
    } else if ch == '{' {
        Some((34, true))
    } else if ch == '}' {
        Some((35, true))
    } else if ch == '|' {
        Some((51, true))
    } else if ch == ':' {
        Some((47, true))
    } else if ch == '"' {
        Some((48, true))
    } else if ch == '<' {
        Some((59, true))
    } else if ch == '>' {
        Some((60, true))
    } else if ch == '?' {
        Some((61, true))
    } else if ch == '~' {
        Some((49, true))
    } else {
        None
    }
}

/// The X11 keycode of an evdev scancode: eight more, cut to eight bits.
pub fn x11_keycode(scancode: u16) -> (code: u8)
    ensures
        code as int == (scancode + 8) % 256,
{
    ((scancode as u32 + 8) % 256) as u8
}

/// The X11 button code of a mouse button.
pub fn x11_button(btn: MouseButton) -> (code: u8)
    ensures
        code == (match btn {
            MouseButton::Left => X11_BUTTON_LEFT,
            MouseButton::Middle => X11_BUTTON_MIDDLE,
            MouseButton::Right => X11_BUTTON_RIGHT,
        }),
{
    match btn {
        MouseButton::Left => X11_BUTTON_LEFT,
        MouseButton::Middle => X11_BUTTON_MIDDLE,
        MouseButton::Right => X11_BUTTON_RIGHT,
    }
}

/// The X11 event type of a button action.
pub fn x11_button_event(action: ButtonAction) -> (event: u8)
    ensures
        event == (match action {
            ButtonAction::Press => BUTTON_PRESS,
            ButtonAction::Release => BUTTON_RELEASE,
        }),
{
    match action {
        ButtonAction::Press => BUTTON_PRESS,
        ButtonAction::Release => BUTTON_RELEASE,
    }
}

/// The clicks that scroll by `delta` notches along one axis: the button for
/// the direction and the number of clicks, or nothing for no notch.
pub fn scroll_clicks(delta: i32, backward: u8, forward: u8) -> (r: Option<(u8, u32)>)
    ensures
        delta == 0 ==> r is None,
        delta < 0 ==> r == Some((backward, (-(delta as int)) as u32)),
        delta > 0 ==> r == Some((forward, delta as u32)),
{
    if delta == 0 {
        None
    } else if delta < 0 {
        Some((backward, (-(delta as i64)) as u32))
    } else {
        Some((forward, delta as u32))
    }
}

/// The X11 keycodes of the modifier keys that are held, in the order shift,
/// ctrl, alt, meta.
pub open spec fn modifier_keycodes(mods: Modifiers) -> Seq<u8> {
    (if mods.shift {
        seq![XK_SHIFT_L]
    } else {
        Seq::empty()
    }) + (if mods.ctrl {
        seq![XK_CONTROL_L]
    } else {
        Seq::empty()
    }) + (if mods.alt {
        seq![XK_ALT_L]
    } else {
        Seq::empty()
    }) + (if mods.meta {
        seq![XK_SUPER_L]
    } else {
        Seq::empty()
    })
}

/// The X11 keycodes of the modifier keys that are held.
pub fn x11_modifiers(mods: Modifiers) -> (codes: Vec<u8>)
    ensures
        codes@ == modifier_keycodes(mods),
{
    let mut codes: Vec<u8> = Vec::new();
    if mods.shift {
        codes.push(XK_SHIFT_L);
    }
    if mods.ctrl {
        codes.push(XK_CONTROL_L);
    }
    if mods.alt {
        codes.push(XK_ALT_L);
    }
    if mods.meta {
        codes.push(XK_SUPER_L);
    }
    proof {
        assert(codes@ =~= modifier_keycodes(mods));
    }
    codes
}

/// One key event for the Windows input queue.
#[derive(Debug, Clone, Copy, PartialEq, Eq, Structural)]
pub struct KeyInput {
    pub scancode: u16,
    pub key_up: bool,
}

/// The key events of a key action with modifiers: on a press the modifiers
/// go down first, in the order shift, ctrl, alt, meta, then the key; on a
/// release the key goes up first, then the modifiers in the opposite order.
pub open spec fn key_inputs_of(scancode: u16, action: KeyAction, mods: Modifiers) -> Seq<KeyInput> {
    let key_up = action is Release;
    let shift = if mods.shift {
        seq![KeyInput { scancode: SCAN_SHIFT_L, key_up }]
    } else {
        Seq::empty()
    };
    let ctrl = if mods.ctrl {
        seq![KeyInput { scancode: SCAN_CONTROL_L, key_up }]
    } else {
        Seq::empty()
    };
    let alt = if mods.alt {
        seq![KeyInput { scancode: SCAN_ALT_L, key_up }]
    } else {
        Seq::empty()
    };
    let meta = if mods.meta {
        seq![KeyInput { scancode: SCAN_WIN_L, key_up }]
    } else {
        Seq::empty()
    };
    let key = seq![KeyInput { scancode, key_up }];
    if key_up {
        key + meta + alt + ctrl + shift
    } else {
        shift + ctrl + alt + meta + key
    }
}

/// The key events of a key action with modifiers.
pub fn key_inputs(scancode: u16, action: KeyAction, mods: Modifiers) -> (out: Vec<KeyInput>)
    ensures
        out@ == key_inputs_of(scancode, action, mods),
{
    let mut out: Vec<KeyInput> = Vec::new();
    match action {
        KeyAction::Press => {
            if mods.shift {
                out.push(KeyInput { scancode: SCAN_SHIFT_L, key_up: false });
            }
            if mods.ctrl {
                out.push(KeyInput { scancode: SCAN_CONTROL_L, key_up: false });
            }
            if mods.alt {
                out.push(KeyInput { scancode: SCAN_ALT_L, key_up: false });
            }
            if mods.meta {
                out.push(KeyInput { scancode: SCAN_WIN_L, key_up: false });
            }
            out.push(KeyInput { scancode, key_up: false });
        },
        KeyAction::Release => {
            out.push(KeyInput { scancode, key_up: true });
            if mods.meta {
                out.push(KeyInput { scancode: SCAN_WIN_L, key_up: true });
            }
            if mods.alt {
                out.push(KeyInput { scancode: SCAN_ALT_L, key_up: true });
            }
            if mods.ctrl {
                out.push(KeyInput { scancode: SCAN_CONTROL_L, key_up: true });
            }
            if mods.shift {
                out.push(KeyInput { scancode: SCAN_SHIFT_L, key_up: true });
            }
        },
    }
    proof {
        assert(out@ =~= key_inputs_of(scancode, action, mods));
    }
    out
}

/// A pixel coordinate on a screen of `extent` pixels as the Windows input
/// queue wants it: scaled to the range from 0 to 65535. An extent below one
/// pixel counts as one.
pub open spec fn normalized(pos: u32, extent: i32) -> int {
    if extent < 1 {
        pos as int * 65535
    } else {
        (pos as int * 65535) / (extent as int)
    }
}

/// The signed value of the low 32 bits of `v`.
pub open spec fn cut_to_i32(v: int) -> int {
    let low = v % 0x1_0000_0000;
    if low >= 0x8000_0000 {
        low - 0x1_0000_0000
    } else {
        low
    }
}

fn normalize(pos: u32, extent: i32) -> (r: i32)
    ensures
        r as int == cut_to_i32(normalized(pos, extent)),
{
    let extent: i64 = if extent < 1 {
        1
    } else {
        extent as i64
    };
    let n: i64 = (pos as i64 * 65535) / extent;
    let low: i64 = n % 0x1_0000_0000;
    if low >= 0x8000_0000 {
        (low - 0x1_0000_0000) as i32
    } else {
        low as i32
    }
}

/// Converts absolute pixel coordinates to the normalized range of the
/// Windows input queue, for a screen of `width` by `height` pixels. Of a
/// value that does not fit the low 32 bits are kept.
pub fn normalize_coords(x: u32, y: u32, width: i32, height: i32) -> (r: (i32, i32))
    ensures
        r.0 as int == cut_to_i32(normalized(x, width)),
        r.1 as int == cut_to_i32(normalized(y, height)),
{
    (normalize(x, width), normalize(y, height))
}

/// The wheel data for a scroll by `notches`: 120 for each notch, as a
/// 32-bit value in two's complement.
pub fn wheel_data(notches: i32) -> (data: u32)
    ensures
        data as int == (notches * WHEEL_DELTA) % 0x1_0000_0000,
{
    let v: i64 = notches as i64 * 120;
    let shifted: u64 = (v + 0x40_0000_0000) as u64;
    (shifted % 0x1_0000_0000) as u32
}

/// Whether an exit code says that the process still runs.
pub fn still_active(exit_code: u32) -> (r: bool)
    ensures
        r == (exit_code == STILL_ACTIVE),
{
    exit_code == STILL_ACTIVE
}

} // verus!
