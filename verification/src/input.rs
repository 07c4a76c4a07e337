//! Remote input: the events that a `DESKTOP_INPUT` payload encodes, and
//! their hand-over to the platform's injector.

use vstd::prelude::*;
use vstd::string::*;
use vstd::utf8::{decode_utf8, valid_utf8};
use crate::platform::PlatformError;
use crate::protocol::{KEY_EVENT, MOUSE_BUTTON, MOUSE_MOVE, MOUSE_SCROLL, TYPE_TEXT};
use crate::text::str_from_utf8;
use crate::wire::{i16_from_le, read_i16_le, read_u16_le, u16_from_le};

verus! {

#[derive(Debug, Clone, Copy, PartialEq, Eq, Structural)]
pub enum MouseButton {
    Left,
    Right,
    Middle,
}

#[derive(Debug, Clone, Copy, PartialEq, Eq, Structural)]
pub enum ButtonAction {
    Press,
    Release,
}

#[derive(Debug, Clone, Copy, PartialEq, Eq, Structural)]
pub enum KeyAction {
    Press,
    Release,
}

#[derive(Debug, Clone, Copy, PartialEq, Eq, Structural)]
pub struct Modifiers {
    pub shift: bool,
    pub ctrl: bool,
    pub alt: bool,
    pub meta: bool,
}

impl Default for Modifiers {
    fn default() -> (m: Self)
        ensures
            m == (Modifiers { shift: false, ctrl: false, alt: false, meta: false }),
    {
        Modifiers { shift: false, ctrl: false, alt: false, meta: false }
    }
}

/// What injects input events into the desktop.
pub trait InputInjector {
    fn mouse_move(&mut self, x: u32, y: u32) -> Result<(), PlatformError>;

    fn mouse_button(&mut self, btn: MouseButton, action: ButtonAction) -> Result<(), PlatformError>;

    fn mouse_scroll(&mut self, dx: i32, dy: i32) -> Result<(), PlatformError>;

    fn key_press(&mut self, scancode: u16, action: KeyAction, mods: Modifiers) -> Result<
        (),
        PlatformError,
    >;

    fn type_text(&mut self, text: &str) -> Result<(), PlatformError>;
}

/// One input event.
#[derive(Debug, Clone)]
pub enum InputEvent {
    MouseMove { x: u32, y: u32 },
    MouseButton { button: MouseButton, action: ButtonAction },
    MouseScroll { dx: i32, dy: i32 },
    Key { scancode: u16, key_action: KeyAction, modifiers: Modifiers },
    Text(String),
}

/// An input event as a mathematical value.
pub enum InputView {
    MouseMove { x: u32, y: u32 },
    MouseButton { button: MouseButton, action: ButtonAction },
    MouseScroll { dx: i32, dy: i32 },
    Key { scancode: u16, key_action: KeyAction, modifiers: Modifiers },
    Text(Seq<char>),
}

impl View for InputEvent {
    type V = InputView;

    open spec fn view(&self) -> InputView {
        match self {
            InputEvent::MouseMove { x, y } => InputView::MouseMove { x: *x, y: *y },
            InputEvent::MouseButton { button, action } => InputView::MouseButton {
                button: *button,
                action: *action,
            },
            InputEvent::MouseScroll { dx, dy } => InputView::MouseScroll { dx: *dx, dy: *dy },
            InputEvent::Key { scancode, key_action, modifiers } => InputView::Key {
                scancode: *scancode,
                key_action: *key_action,
                modifiers: *modifiers,
            },
            InputEvent::Text(text) => InputView::Text(text@),
        }
    }
}

/// The mouse button that a byte names.
pub open spec fn button_of(b: u8) -> Option<MouseButton> {
    if b == 0 {
        Some(MouseButton::Left)
    } else if b == 1 {
        Some(MouseButton::Right)
    } else if b == 2 {
        Some(MouseButton::Middle)
    } else {
        None
    }
}

/// Whether a byte names an action: 0 for press, 1 for release.
pub open spec fn is_action(b: u8) -> bool {
    b == 0 || b == 1
}

/// The modifier keys that a byte names: bit 0 shift, bit 1 ctrl, bit 2 alt,
/// bit 3 meta.
pub open spec fn modifiers_of(m: u8) -> Modifiers {
    Modifiers {
        shift: m % 2 == 1,
        ctrl: (m / 2) % 2 == 1,
        alt: (m / 4) % 2 == 1,
        meta: (m / 8) % 2 == 1,
    }
}

/// The event that a `DESKTOP_INPUT` payload encodes: a subtype byte, then the
/// subtype's fields. `None` for an empty payload, an unknown subtype, fields
/// that are cut short or hold an unknown button or action, and for text that
/// is empty or not UTF-8.
pub open spec fn input_of(payload: Seq<u8>) -> Option<InputView> {
    if payload.len() == 0 {
        None
    } else {
        let kind = payload[0];
        let data = payload.skip(1);
        if kind == MOUSE_MOVE {
            if data.len() >= 4 {
                Some(
                    InputView::MouseMove {
                        x: u16_from_le(data[0], data[1]) as u32,
                        y: u16_from_le(data[2], data[3]) as u32,
                    },
                )
            } else {
                None
            }
        } else if kind == MOUSE_BUTTON {
            if data.len() >= 2 && button_of(data[0]) is Some && is_action(data[1]) {
                Some(
                    InputView::MouseButton {
                        button: button_of(data[0])->0,
                        action: if data[1] == 0 {
                            ButtonAction::Press
                        } else {
                            ButtonAction::Release
                        },
                    },
                )
            } else {
                None
            }
        } else if kind == MOUSE_SCROLL {
            if data.len() >= 4 {
                Some(
                    InputView::MouseScroll {
                        dx: i16_from_le(data[0], data[1]) as i32,
                        dy: i16_from_le(data[2], data[3]) as i32,
                    },
                )
            } else {
                None
            }
        } else if kind == KEY_EVENT {
            if data.len() >= 4 && is_action(data[2]) {
                Some(
                    InputView::Key {
                        scancode: u16_from_le(data[0], data[1]),
                        key_action: if data[2] == 0 {
                            KeyAction::Press
                        } else {
                            KeyAction::Release
                        },
                        modifiers: modifiers_of(data[3]),
                    },
                )
            } else {
                None
            }
        } else if kind == TYPE_TEXT {
            if valid_utf8(data) && decode_utf8(data).len() > 0 {
                Some(InputView::Text(decode_utf8(data)))
            } else {
                None
            }
        } else {
            None
        }
    }
}

fn modifiers_from(m: u8) -> (mods: Modifiers)
    ensures
        mods == modifiers_of(m),
{
    Modifiers {
        shift: m % 2 == 1,
        ctrl: (m / 2) % 2 == 1,
        alt: (m / 4) % 2 == 1,
        meta: (m / 8) % 2 == 1,
    }
}

/// Reads the event that a `DESKTOP_INPUT` payload encodes.
pub fn parse_desktop_input(payload: &[u8]) -> (r: Option<InputEvent>)
    ensures
        r is Some <==> input_of(payload@) is Some,
        r matches Some(event) ==> event@ == input_of(payload@)->0,
{
    if payload.len() == 0 {
        return None;
    }
    let kind = payload[0];
    let data = vstd::slice::slice_subrange(payload, 1, payload.len());
    proof {
        assert(data@ =~= payload@.skip(1));
    }
    if kind == MOUSE_MOVE {
        if data.len() >= 4 {
            let x = read_u16_le(data, 0) as u32;
            let y = read_u16_le(data, 2) as u32;
            return Some(InputEvent::MouseMove { x, y });
        }
        None
    } else if kind == MOUSE_BUTTON {
        if data.len() >= 2 {
            let button = if data[0] == 0 {
                MouseButton::Left
            } else if data[0] == 1 {
                MouseButton::Right
            } else if data[0] == 2 {
                MouseButton::Middle
            } else {
                return None;
            };
            let action = if data[1] == 0 {
                ButtonAction::Press
            } else if data[1] == 1 {
                ButtonAction::Release
            } else {
                return None;
            };
            return Some(InputEvent::MouseButton { button, action });
        }
        None
    } else if kind == MOUSE_SCROLL {
        if data.len() >= 4 {
            let dx = read_i16_le(data, 0) as i32;
            let dy = read_i16_le(data, 2) as i32;
            return Some(InputEvent::MouseScroll { dx, dy });
        }
        None
    } else if kind == KEY_EVENT {
        if data.len() >= 4 {
            let scancode = read_u16_le(data, 0);
            let key_action = if data[2] == 0 {
                KeyAction::Press
            } else if data[2] == 1 {
                KeyAction::Release
            } else {
                return None;
            };
            let modifiers = modifiers_from(data[3]);
            return Some(InputEvent::Key { scancode, key_action, modifiers });
        }
        None
    } else if kind == TYPE_TEXT {
        match str_from_utf8(data) {
            Some(text) => {
                if text.unicode_len() > 0 {
                    Some(InputEvent::Text(String::from_str(text)))
                } else {
                    None
                }
            },
            None => None,
        }
    } else {
        None
    }
}

/// Whether `answer` is what the injector behind `m` gives when it is handed
/// `event`: the answer of the one method that takes events of this kind,
/// called on `m` with the fields of the event.
pub open spec fn handed<I: InputInjector>(
    m: &mut I,
    event: InputView,
    answer: Result<(), PlatformError>,
) -> bool {
    match event {
        InputView::MouseMove { x, y } => call_ensures(I::mouse_move, (m, x, y), answer),
        InputView::MouseButton { button, action } => call_ensures(
            I::mouse_button,
            (m, button, action),
            answer,
        ),
        InputView::MouseScroll { dx, dy } => call_ensures(I::mouse_scroll, (m, dx, dy), answer),
        InputView::Key { scancode, key_action, modifiers } => call_ensures(
            I::key_press,
            (m, scancode, key_action, modifiers),
            answer,
        ),
        InputView::Text(text) => exists|t: &str|
            t@ == text && #[trigger] call_ensures(I::type_text, (m, t), answer),
    }
}

/// Hands one event to the injector and returns what the injector answers:
/// the injector is called once, with the event, and is left as that call
/// leaves it.
fn inject<I: InputInjector>(event: &InputEvent, injector: &mut I) -> (r: Result<
    (),
    PlatformError,
>)
    ensures
        exists|m: &mut I|
            *m == *old(injector) && *final(m) == *final(injector) && #[trigger] handed(
                m,
                event@,
                r,
            ),
{
    match event {
        InputEvent::MouseMove { x, y } => {
            let r = injector.mouse_move(*x, *y);
            proof {
                let m = choose|m: &mut I|
                    *m == *old(injector) && *final(m) == *injector && #[trigger] call_ensures(
                        I::mouse_move,
                        (m, *x, *y),
                        r,
                    );
                assert(handed(m, event@, r));
            }
            r
        },
        InputEvent::MouseButton { button, action } => {
            let r = injector.mouse_button(*button, *action);
            proof {
                let m = choose|m: &mut I|
                    *m == *old(injector) && *final(m) == *injector && #[trigger] call_ensures(
                        I::mouse_button,
                        (m, *button, *action),
                        r,
                    );
                assert(handed(m, event@, r));
            }
            r
        },
        InputEvent::MouseScroll { dx, dy } => {
            let r = injector.mouse_scroll(*dx, *dy);
            proof {
                let m = choose|m: &mut I|
                    *m == *old(injector) && *final(m) == *injector && #[trigger] call_ensures(
                        I::mouse_scroll,
                        (m, *dx, *dy),
                        r,
                    );
                assert(handed(m, event@, r));
            }
            r
        },
        InputEvent::Key { scancode, key_action, modifiers } => {
            let r = injector.key_press(*scancode, *key_action, *modifiers);
            proof {
                let m = choose|m: &mut I|
                    *m == *old(injector) && *final(m) == *injector && #[trigger] call_ensures(
                        I::key_press,
                        (m, *scancode, *key_action, *modifiers),
                        r,
                    );
                assert(handed(m, event@, r));
            }
            r
        },
        InputEvent::Text(text) => {
            let t = text.as_str();
            let r = injector.type_text(t);
            proof {
                let m = choose|m: &mut I|
                    *m == *old(injector) && *final(m) == *injector && #[trigger] call_ensures(
                        I::type_text,
                        (m, t),
                        r,
                    );
                assert(handed(m, event@, r));
            }
            r
        },
    }
}

/// Reads a `DESKTOP_INPUT` payload and hands its event to the injector: the
/// injector is called once, with the event that the payload encodes, and its
/// answer comes back. A payload that encodes no event is passed over, which
/// is no error and leaves the injector as it was.
pub fn handle_desktop_input<I: InputInjector>(payload: &[u8], injector: &mut I) -> (r: Result<
    (),
    PlatformError,
>)
    ensures
        input_of(payload@) is None ==> r is Ok && *final(injector) == *old(injector),
        input_of(payload@) matches Some(event) ==> exists|m: &mut I|
            *m == *old(injector) && *final(m) == *final(injector) && #[trigger] handed(
                m,
                event,
                r,
            ),
{
    match parse_desktop_input(payload) {
        Some(event) => inject(&event, injector),
        None => Ok(()),
    }
}

} // verus!
