//! Decoding raw keyboard and mouse notifications into normalized
//! events.
//!
//! The OS delivers a mouse notification as relative motion plus a
//! button-flag bitmask and wheel data, and a keyboard notification as a
//! virtual-key code plus a flag word.  The decoders below turn those
//! plain words into [`Event`]s; reading the notification out of the OS
//! message is the device listener's business.

use vstd::prelude::*;
use crate::events::{Event, PressState};

verus! {

/// Button-flag bits of a raw mouse notification.
pub const RI_MOUSE_LEFT_BUTTON_DOWN: u16 = 0x0001;

pub const RI_MOUSE_LEFT_BUTTON_UP: u16 = 0x0002;

pub const RI_MOUSE_RIGHT_BUTTON_DOWN: u16 = 0x0004;

pub const RI_MOUSE_RIGHT_BUTTON_UP: u16 = 0x0008;

pub const RI_MOUSE_MIDDLE_BUTTON_DOWN: u16 = 0x0010;

pub const RI_MOUSE_MIDDLE_BUTTON_UP: u16 = 0x0020;

pub const RI_MOUSE_BUTTON_4_DOWN: u16 = 0x0040;

pub const RI_MOUSE_BUTTON_4_UP: u16 = 0x0080;

pub const RI_MOUSE_BUTTON_5_DOWN: u16 = 0x0100;

pub const RI_MOUSE_BUTTON_5_UP: u16 = 0x0200;

pub const RI_MOUSE_WHEEL: u16 = 0x0400;

/// Flag bit marking a keyboard notification as a key release.
pub const RI_KEY_BREAK: u16 = 0x0001;

/// Virtual-key codes of the mouse buttons, as persisted in the log.
pub const VK_LBUTTON: u16 = 1;

pub const VK_RBUTTON: u16 = 2;

pub const VK_MBUTTON: u16 = 4;

pub const VK_XBUTTON1: u16 = 5;

pub const VK_XBUTTON2: u16 = 6;

/// The button flags of a raw mouse notification, each paired with the
/// stable code and press state it stands for, in flag order.
pub open spec fn button_flag_table() -> Seq<(u16, u16, PressState)> {
    seq![
        (RI_MOUSE_LEFT_BUTTON_DOWN, VK_LBUTTON, PressState::Pressed),
        (RI_MOUSE_LEFT_BUTTON_UP, VK_LBUTTON, PressState::Released),
        (RI_MOUSE_RIGHT_BUTTON_DOWN, VK_RBUTTON, PressState::Pressed),
        (RI_MOUSE_RIGHT_BUTTON_UP, VK_RBUTTON, PressState::Released),
        (RI_MOUSE_MIDDLE_BUTTON_DOWN, VK_MBUTTON, PressState::Pressed),
        (RI_MOUSE_MIDDLE_BUTTON_UP, VK_MBUTTON, PressState::Released),
        (RI_MOUSE_BUTTON_4_DOWN, VK_XBUTTON1, PressState::Pressed),
        (RI_MOUSE_BUTTON_4_UP, VK_XBUTTON1, PressState::Released),
        (RI_MOUSE_BUTTON_5_DOWN, VK_XBUTTON2, PressState::Pressed),
        (RI_MOUSE_BUTTON_5_UP, VK_XBUTTON2, PressState::Released),
    ]
}

/// The button events from table index `i` on: one press or release per
/// set flag.
pub open spec fn button_events_from(flags: u16, i: int) -> Seq<Event>
    decreases button_flag_table().len() - i
        when 0 <= i <= button_flag_table().len()
{
    if i < button_flag_table().len() {
        let entry = button_flag_table()[i];
        (if flags & entry.0 != 0 {
            seq![Event::MousePress { key: entry.1, press_state: entry.2 }]
        } else {
            Seq::<Event>::empty()
        }) + button_events_from(flags, i + 1)
    } else {
        Seq::<Event>::empty()
    }
}

/// The button events of a raw mouse notification: one press or release
/// per set button flag, extended buttons 4 and 5 included, in flag
/// order.  The OS coalesces simultaneous button changes into one
/// notification, so several flags can be set at once and each must
/// yield its own event.
pub open spec fn spec_mouse_button_events(flags: u16) -> Seq<Event> {
    button_events_from(flags, 0)
}

/// Every event of a raw mouse notification: relative motion when any,
/// then one button event per set flag, then the wheel event with its
/// delta read as a signed amount.
pub open spec fn spec_decode_mouse_input(
    last_x: i32,
    last_y: i32,
    flags: u16,
    button_data: u16,
) -> Seq<Event> {
    (if last_x != 0 || last_y != 0 {
        seq![Event::MouseMove { dx: last_x, dy: last_y }]
    } else {
        Seq::<Event>::empty()
    }) + spec_mouse_button_events(flags) + (if flags & RI_MOUSE_WHEEL != 0 {
        seq![Event::MouseScroll { scroll_amount: button_data as i16 }]
    } else {
        Seq::<Event>::empty()
    })
}

/// Decodes one raw mouse notification, handed over as its plain words:
/// the relative motion, the button-flag bitmask and the wheel data.
pub fn decode_mouse_input(last_x: i32, last_y: i32, flags: u16, button_data: u16) -> (evs: Vec<
    Event,
>)
    ensures
        evs@ == spec_decode_mouse_input(last_x, last_y, flags, button_data),
{
    let mut evs: Vec<Event> = Vec::new();
    if last_x != 0 || last_y != 0 {
        evs.push(Event::MouseMove { dx: last_x, dy: last_y });
    }
    push_button_events(&mut evs, flags);
    if flags & RI_MOUSE_WHEEL != 0 {
        evs.push(Event::MouseScroll { scroll_amount: button_data as i16 });
    }
    proof {
        assert(evs@ =~= spec_decode_mouse_input(last_x, last_y, flags, button_data));
    }
    evs
}

/// The runtime copy of the button-flag table.
fn button_flag_entries() -> (t: Vec<(u16, u16, PressState)>)
    ensures
        t@ =~= button_flag_table(),
{
    let mut t: Vec<(u16, u16, PressState)> = Vec::new();
    t.push((RI_MOUSE_LEFT_BUTTON_DOWN, VK_LBUTTON, PressState::Pressed));
    t.push((RI_MOUSE_LEFT_BUTTON_UP, VK_LBUTTON, PressState::Released));
    t.push((RI_MOUSE_RIGHT_BUTTON_DOWN, VK_RBUTTON, PressState::Pressed));
    t.push((RI_MOUSE_RIGHT_BUTTON_UP, VK_RBUTTON, PressState::Released));
    t.push((RI_MOUSE_MIDDLE_BUTTON_DOWN, VK_MBUTTON, PressState::Pressed));
    t.push((RI_MOUSE_MIDDLE_BUTTON_UP, VK_MBUTTON, PressState::Released));
    t.push((RI_MOUSE_BUTTON_4_DOWN, VK_XBUTTON1, PressState::Pressed));
    t.push((RI_MOUSE_BUTTON_4_UP, VK_XBUTTON1, PressState::Released));
    t.push((RI_MOUSE_BUTTON_5_DOWN, VK_XBUTTON2, PressState::Pressed));
    t.push((RI_MOUSE_BUTTON_5_UP, VK_XBUTTON2, PressState::Released));
    t
}

/// Appends one press or release event per set button flag, in flag
/// order.
fn push_button_events(evs: &mut Vec<Event>, flags: u16)
    ensures
        final(evs)@ == old(evs)@ + spec_mouse_button_events(flags),
{
    let table = button_flag_entries();
    let mut i: usize = 0;
    while i < table.len()
        invariant
            0 <= i <= table@.len(),
            table@ =~= button_flag_table(),
            old(evs)@ + button_events_from(flags, 0) =~= evs@ + button_events_from(
                flags,
                i as int,
            ),
        decreases table@.len() - i,
    {
        let (flag, key, press_state) = table[i];
        if flags & flag != 0 {
            evs.push(Event::MousePress { key, press_state });
        }
        i = i + 1;
        proof {
            assert(old(evs)@ + button_events_from(flags, 0) =~= evs@ + button_events_from(
                flags,
                i as int,
            ));
        }
    }
    proof {
        assert(button_events_from(flags, table@.len() as int) =~= Seq::<Event>::empty());
        assert(final(evs)@ =~= old(evs)@ + spec_mouse_button_events(flags));
    }
}

/// Decodes one raw keyboard notification: the virtual-key code passes
/// through, and the break flag distinguishes release from press.
pub fn decode_keyboard_input(vkey: u16, flags: u16) -> (e: Event)
    ensures
        e == (Event::KeyPress {
            key: vkey,
            press_state: if flags & RI_KEY_BREAK != 0 {
                PressState::Released
            } else {
                PressState::Pressed
            },
        }),
{
    let press_state = if flags & RI_KEY_BREAK != 0 {
        PressState::Released
    } else {
        PressState::Pressed
    };
    Event::KeyPress { key: vkey, press_state }
}

} // verus!
