//! The normalized input-event model shared by every device source.
//!
//! Analog magnitudes are carried as fixed-point millionths
//! ([`AnalogValue`]), so that the event stream and the persisted log stay
//! within exact integer arithmetic; the device boundary converts its raw
//! readings into this form before events enter the library.

use vstd::prelude::*;
use vstd::string::StrSliceExecFns;

verus! {

/// Whether a digital control went down or came back up.
#[derive(Debug, Clone, Copy, PartialEq, Eq, Structural)]
pub enum PressState {
    Pressed,
    Released,
}

/// A signed analog magnitude in millionths (fixed-point, 6 fractional
/// decimal digits).  A full axis deflection of 1.0 is `1_000_000`.
#[derive(Debug, Clone, Copy, PartialEq, Eq, Structural)]
pub struct AnalogValue {
    pub micros: i64,
}

/// An identifier for an OS process.
#[derive(Debug, Clone, Copy, PartialEq, Eq, Structural)]
pub struct Pid(pub u32);

/// A normalized input event.  Codes are the library's own stable numeric
/// enumerations per device class, independent of any input backend's
/// internal ordering.
#[derive(Debug, Clone, Copy, PartialEq, Eq, Structural)]
pub enum Event {
    /// Relative mouse movement.
    MouseMove { dx: i32, dy: i32 },
    /// Mouse button press or release.
    MousePress { key: u16, press_state: PressState },
    /// Mouse scroll wheel movement; positive means scrolling up.
    MouseScroll { scroll_amount: i16 },
    /// Keyboard key press or release.
    KeyPress { key: u16, press_state: PressState },
    /// Gamepad button press or release.
    GamepadButtonPress { key: u16, press_state: PressState },
    /// Gamepad analog button value change (e.g. triggers).
    GamepadButtonChange { key: u16, value: AnalogValue },
    /// Gamepad axis value change.
    GamepadAxisChange { axis: u16, value: AnalogValue },
}

impl Event {
    /// The keycode of a keyboard key-down event, and nothing else.
    pub fn key_press_keycode(&self) -> (r: Option<u16>)
        ensures
            r == spec_key_press_keycode(*self),
    {
        match self {
            Event::KeyPress { key, press_state: PressState::Pressed } => Some(*key),
            _ => None,
        }
    }
}

/// The keycode carried by a keyboard key-down event; `None` for every
/// other event, including key releases.
pub open spec fn spec_key_press_keycode(e: Event) -> Option<u16> {
    match e {
        Event::KeyPress { key, press_state: PressState::Pressed } => Some(key),
        _ => None,
    }
}

/// Free-function form of [`Event::key_press_keycode`], used where the
/// caller holds the event by reference in a dispatch loop.
pub fn keycode_from_event(event: &Event) -> (r: Option<u16>)
    ensures
        r == spec_key_press_keycode(*event),
{
    event.key_press_keycode()
}

/// The virtual-key code a hotkey name stands for: a single letter or
/// digit names its own key, and `F1` through `F24` name the function
/// keys.
pub open spec fn spec_lookup_keycode(s: Seq<char>) -> Option<u16> {
    if s.len() == 1 && (65 <= s[0] as int <= 90 || 48 <= s[0] as int <= 57) {
        Some(s[0] as u16)
    } else if s.len() == 2 && s[0] == 'F' && 49 <= s[1] as int <= 57 {
        Some((111 + (s[1] as int - 48)) as u16)
    } else if s.len() == 3 && s[0] == 'F' && 49 <= s[1] as int <= 50 && 48 <= s[2] as int <= 57
        && (s[1] as int - 48) * 10 + (s[2] as int - 48) <= 24 {
        Some((111 + (s[1] as int - 48) * 10 + (s[2] as int - 48)) as u16)
    } else {
        None
    }
}

/// Resolves a hotkey name to its virtual-key code.
pub fn lookup_keycode(name: &str) -> (r: Option<u16>)
    ensures
        r == spec_lookup_keycode(name@),
{
    let n = name.unicode_len();
    if n == 1 {
        let c = name.get_char(0) as u32;
        if (65 <= c && c <= 90) || (48 <= c && c <= 57) {
            return Some(c as u16);
        }
        return None;
    }
    if n == 2 {
        let c0 = name.get_char(0);
        let c1 = name.get_char(1) as u32;
        if c0 == 'F' && 49 <= c1 && c1 <= 57 {
            return Some((111 + (c1 - 48)) as u16);
        }
        return None;
    }
    if n == 3 {
        let c0 = name.get_char(0);
        let c1 = name.get_char(1) as u32;
        let c2 = name.get_char(2) as u32;
        if c0 == 'F' && 49 <= c1 && c1 <= 50 && 48 <= c2 && c2 <= 57 && (c1 - 48) * 10 + (c2 - 48)
            <= 24 {
            return Some((111 + (c1 - 48) * 10 + (c2 - 48)) as u16);
        }
        return None;
    }
    None
}

} // verus!
