//! Turning raw Linux input events into hook events, and modifier tracking.
use vstd::prelude::*;
use crate::proto::{MOD_ALT, MOD_CTRL, MOD_META, MOD_SHIFT};

verus! {

/// Raw input event captured by the platform hook.
#[derive(Debug, Clone, Copy, PartialEq, Eq, Structural)]
pub enum HookEvent {
    /// Relative mouse movement from hardware.
    MouseMove { dx: i32, dy: i32 },
    MouseButton { button: u8, pressed: bool },
    MouseScroll { dx: i32, dy: i32 },
    KeyEvent { keysym: u32, pressed: bool, modifiers: u32 },
}

pub const EV_SYN: u16 = 0;
pub const EV_KEY: u16 = 1;
pub const EV_REL: u16 = 2;
pub const SYN_REPORT: u16 = 0;
pub const REL_X: u16 = 0;
pub const REL_Y: u16 = 1;
pub const REL_HWHEEL: u16 = 6;
pub const REL_WHEEL: u16 = 8;
pub const BTN_LEFT: u16 = 0x110;
pub const BTN_RIGHT: u16 = 0x111;
pub const BTN_MIDDLE: u16 = 0x112;

/// The modifier bit an evdev key code stands for, if any.
pub open spec fn modifier_bit(code: u16) -> Option<u32> {
    if code == 42 || code == 54 {
        Some(MOD_SHIFT)
    } else if code == 29 || code == 97 {
        Some(MOD_CTRL)
    } else if code == 56 || code == 100 {
        Some(MOD_ALT)
    } else if code == 125 || code == 126 {
        Some(MOD_META)
    } else {
        None
    }
}

/// The modifier mask after key `code` is pressed or released.
pub open spec fn mods_after(code: u16, pressed: bool, mods: u32) -> u32 {
    match modifier_bit(code) {
        Some(bit) => if pressed { mods | bit } else { mods & !bit },
        None => mods,
    }
}

/// What to do with one raw event.
#[derive(Debug, Clone, Copy, PartialEq, Eq, Structural)]
pub enum Dispatch {
    /// Nothing to report.
    Ignore,
    /// Report this event.
    Emit(HookEvent),
    /// A keyboard key changed: look up the keysym of X11 key code `x11_code`
    /// (evdev code + 8) and report it with `key_event_for`.
    LookupKey { x11_code: u8, pressed: bool },
}

/// The mouse button number of an evdev button code.
pub open spec fn button_number(code: u16) -> Option<u8> {
    if code == BTN_LEFT {
        Some(1u8)
    } else if code == BTN_MIDDLE {
        Some(2u8)
    } else if code == BTN_RIGHT {
        Some(3u8)
    } else {
        None
    }
}

/// What a raw event (type, code, value) from a keyboard (`is_kbd`) or pointing
/// device becomes. Key repeats are dropped; keyboard keys go through keysym
/// lookup; mouse buttons and relative axes are reported directly.
pub open spec fn dispatch_spec(kind: u16, code: u16, value: i32, is_kbd: bool) -> Dispatch {
    if kind == EV_KEY {
        if value == 2 {
            Dispatch::Ignore
        } else if is_kbd {
            Dispatch::LookupKey { x11_code: ((code + 8) % 256) as u8, pressed: value == 1 }
        } else {
            match button_number(code) {
                Some(b) => Dispatch::Emit(HookEvent::MouseButton { button: b, pressed: value == 1 }),
                None => Dispatch::Ignore,
            }
        }
    } else if kind == EV_REL && !is_kbd {
        if code == REL_X {
            Dispatch::Emit(HookEvent::MouseMove { dx: value, dy: 0 })
        } else if code == REL_Y {
            Dispatch::Emit(HookEvent::MouseMove { dx: 0, dy: value })
        } else if code == REL_WHEEL {
            Dispatch::Emit(HookEvent::MouseScroll { dx: 0, dy: value })
        } else if code == REL_HWHEEL {
            Dispatch::Emit(HookEvent::MouseScroll { dx: value, dy: 0 })
        } else {
            Dispatch::Ignore
        }
    } else {
        Dispatch::Ignore
    }
}

/// Track modifier keys: set the key's bit on press, clear it on release; other
/// keys leave the mask alone.
pub fn update_mods(code: u16, pressed: bool, mods: &mut u32)
    ensures
        *final(mods) == mods_after(code, pressed, *old(mods)),
{
    let bit: u32 = match code {
        42 | 54 => MOD_SHIFT,
        29 | 97 => MOD_CTRL,
        56 | 100 => MOD_ALT,
        125 | 126 => MOD_META,
        _ => {
            return;
        },
    };
    if pressed {
        *mods = *mods | bit;
    } else {
        *mods = *mods & !bit;
    }
}

/// Decide what a raw event becomes, updating the modifier mask for keyboard
/// keys that are pressed or released.
pub fn dispatch(kind: u16, code: u16, value: i32, is_kbd: bool, modifiers: &mut u32) -> (r: Dispatch)
    requires
        kind == EV_KEY && value != 2 && is_kbd ==> code + 8 <= u16::MAX,
    ensures
        r == dispatch_spec(kind, code, value, is_kbd),
        *final(modifiers) == if kind == EV_KEY && value != 2 && is_kbd {
            mods_after(code, value == 1, *old(modifiers))
        } else {
            *old(modifiers)
        },
{
    if kind == EV_KEY {
        if value == 2 {
            return Dispatch::Ignore;
        }
        let pressed = value == 1;
        if is_kbd {
            update_mods(code, pressed, modifiers);
            let sum = code + 8;
            proof {
                assert((sum as u8) as int == (sum as int) % 256) by (bit_vector);
            }
            Dispatch::LookupKey { x11_code: sum as u8, pressed }
        } else {
            let button: u8 = if code == BTN_LEFT {
                1
            } else if code == BTN_MIDDLE {
                2
            } else if code == BTN_RIGHT {
                3
            } else {
                return Dispatch::Ignore;
            };
            Dispatch::Emit(HookEvent::MouseButton { button, pressed })
        }
    } else if kind == EV_REL && !is_kbd {
        if code == REL_X {
            Dispatch::Emit(HookEvent::MouseMove { dx: value, dy: 0 })
        } else if code == REL_Y {
            Dispatch::Emit(HookEvent::MouseMove { dx: 0, dy: value })
        } else if code == REL_WHEEL {
            Dispatch::Emit(HookEvent::MouseScroll { dx: 0, dy: value })
        } else if code == REL_HWHEEL {
            Dispatch::Emit(HookEvent::MouseScroll { dx: value, dy: 0 })
        } else {
            Dispatch::Ignore
        }
    } else {
        Dispatch::Ignore
    }
}

/// The key event to report once a keysym is known: none for 0 (no symbol) or
/// 0xFFFFFF (`XK_VoidSymbol`).
pub fn key_event_for(keysym: u32, pressed: bool, modifiers: u32) -> (r: Option<HookEvent>)
    ensures
        (keysym == 0 || keysym == 0xFF_FFFF) ==> r is None,
        (keysym != 0 && keysym != 0xFF_FFFF) ==> r == Some(HookEvent::KeyEvent { keysym, pressed, modifiers }),
{
    if keysym != 0 && keysym != 0xFF_FFFF {
        Some(HookEvent::KeyEvent { keysym, pressed, modifiers })
    } else {
        None
    }
}

/// The evdev button code for an injected mouse button (1 left, 2 middle,
/// 3 right); other buttons are not injected.
pub fn button_code(button: u8) -> (r: Option<u16>)
    ensures
        button == 1 ==> r == Some(BTN_LEFT),
        button == 2 ==> r == Some(BTN_MIDDLE),
        button == 3 ==> r == Some(BTN_RIGHT),
        (button < 1 || button > 3) ==> r is None,
{
    match button {
        1 => Some(BTN_LEFT),
        2 => Some(BTN_MIDDLE),
        3 => Some(BTN_RIGHT),
        _ => None,
    }
}

/// The evdev key code for an X11 key code (X11 codes are evdev codes + 8);
/// none when that would be 0.
pub fn evdev_key_code(x11_code: u8) -> (r: Option<u16>)
    ensures
        x11_code <= 8 ==> r is None,
        x11_code > 8 ==> r == Some((x11_code - 8) as u16),
{
    let evdev = (x11_code as u32).saturating_sub(8);
    if evdev > 0 {
        Some(evdev as u16)
    } else {
        None
    }
}

/// Pressing and then releasing a modifier key leaves its bit clear; pressing
/// sets it.
pub proof fn lemma_modifier_press_release(code: u16, mods: u32)
    requires
        modifier_bit(code) is Some,
    ensures
        mods_after(code, true, mods) & modifier_bit(code)->0 != 0,
        mods_after(code, false, mods_after(code, true, mods)) & modifier_bit(code)->0 == 0,
{
    let bit = modifier_bit(code)->0;
    assert(bit == 1 || bit == 2 || bit == 4 || bit == 8);
    assert((bit == 1 || bit == 2 || bit == 4 || bit == 8) ==> (mods | bit) & bit != 0) by (bit_vector);
    assert((bit == 1 || bit == 2 || bit == 4 || bit == 8) ==> ((mods | bit) & !bit) & bit == 0) by (bit_vector);
}


/// The evdev modifier keys and the bits they stand for: left and right Shift
/// (42, 54), Control (29, 97), Alt (56, 100) and Meta (125, 126); every other key
/// leaves the mask alone. Pressing a modifier key sets its bit, releasing it
/// clears the bit, whatever the mask was.
pub proof fn lemma_modifier_keys(code: u16, mods: u32)
    ensures
        modifier_bit(42) == Some(1u32) && modifier_bit(54) == Some(1u32),
        modifier_bit(29) == Some(2u32) && modifier_bit(97) == Some(2u32),
        modifier_bit(56) == Some(4u32) && modifier_bit(100) == Some(4u32),
        modifier_bit(125) == Some(8u32) && modifier_bit(126) == Some(8u32),
        !(code == 42 || code == 54 || code == 29 || code == 97 || code == 56 || code == 100 || code == 125 || code == 126)
            ==> mods_after(code, true, mods) == mods && mods_after(code, false, mods) == mods,
        (code == 56 || code == 100) ==> mods_after(code, true, mods) == mods | 4u32 && mods_after(code, false, mods) == mods & !4u32,
        (code == 42 || code == 54) ==> mods_after(code, true, mods) == mods | 1u32 && mods_after(code, false, mods) == mods & !1u32,
        (code == 29 || code == 97) ==> mods_after(code, true, mods) == mods | 2u32 && mods_after(code, false, mods) == mods & !2u32,
        (code == 125 || code == 126) ==> mods_after(code, true, mods) == mods | 8u32 && mods_after(code, false, mods) == mods & !8u32,
{
}

} // verus!
