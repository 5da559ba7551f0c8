//! The gamepad code tables: an explicit, versioned mapping from the
//! gamepad backend's buttons and axes to the library's stable numeric
//! codes, so persisted datasets survive backend upgrades.
//!
//! The device listener converts its backend's notifications one-to-one
//! into [`GamepadInput`] values (turning raw analog readings into
//! fixed-point millionths on the way) and hands them to [`map_event`].

use vstd::prelude::*;
use crate::events::{AnalogValue, Event, PressState};

verus! {

/// Stable codes of the gamepad buttons.
pub const BTN_UNKNOWN: u16 = 0;

pub const BTN_SOUTH: u16 = 1;

pub const BTN_EAST: u16 = 2;

pub const BTN_C: u16 = 3;

pub const BTN_NORTH: u16 = 4;

pub const BTN_WEST: u16 = 5;

pub const BTN_Z: u16 = 6;

pub const BTN_LT: u16 = 7;

pub const BTN_RT: u16 = 8;

pub const BTN_LT2: u16 = 9;

pub const BTN_RT2: u16 = 10;

pub const BTN_SELECT: u16 = 11;

pub const BTN_START: u16 = 12;

pub const BTN_MODE: u16 = 13;

pub const BTN_LTHUMB: u16 = 14;

pub const BTN_RTHUMB: u16 = 15;

pub const BTN_DPAD_UP: u16 = 16;

pub const BTN_DPAD_DOWN: u16 = 17;

pub const BTN_DPAD_LEFT: u16 = 18;

pub const BTN_DPAD_RIGHT: u16 = 19;

/// Stable codes of the gamepad axes.
pub const AXIS_UNKNOWN: u16 = 0;

pub const AXIS_LSTICKX: u16 = 1;

pub const AXIS_LSTICKY: u16 = 2;

pub const AXIS_LEFTZ: u16 = 3;

pub const AXIS_RSTICKX: u16 = 4;

pub const AXIS_RSTICKY: u16 = 5;

pub const AXIS_RIGHTZ: u16 = 6;

pub const AXIS_DPADX: u16 = 7;

pub const AXIS_DPADY: u16 = 8;

/// A gamepad button, named as the device backend names them.
#[derive(Debug, Clone, Copy, PartialEq, Eq, Structural)]
pub enum Button {
    South,
    East,
    North,
    West,
    C,
    Z,
    LeftTrigger,
    LeftTrigger2,
    RightTrigger,
    RightTrigger2,
    Select,
    Start,
    Mode,
    LeftThumb,
    RightThumb,
    DPadUp,
    DPadDown,
    DPadLeft,
    DPadRight,
    Unknown,
}

/// A gamepad axis, named as the device backend names them.
#[derive(Debug, Clone, Copy, PartialEq, Eq, Structural)]
pub enum Axis {
    LeftStickX,
    LeftStickY,
    LeftZ,
    RightStickX,
    RightStickY,
    RightZ,
    DPadX,
    DPadY,
    Unknown,
}

/// One gamepad notification, already in plain values: which control,
/// and for analog changes the reading as fixed-point millionths.
#[derive(Debug, Clone, Copy, PartialEq, Eq, Structural)]
pub enum GamepadInput {
    ButtonPressed(Button),
    ButtonRepeated(Button),
    ButtonReleased(Button),
    ButtonChanged(Button, AnalogValue),
    AxisChanged(Axis, AnalogValue),
    Connected,
    Disconnected,
    Dropped,
}

/// The stable code of each button.
pub open spec fn spec_map_button(b: Button) -> u16 {
    match b {
        Button::South => BTN_SOUTH,
        Button::East => BTN_EAST,
        Button::North => BTN_NORTH,
        Button::West => BTN_WEST,
        Button::C => BTN_C,
        Button::Z => BTN_Z,
        Button::LeftTrigger => BTN_LT,
        Button::LeftTrigger2 => BTN_LT2,
        Button::RightTrigger => BTN_RT,
        Button::RightTrigger2 => BTN_RT2,
        Button::Select => BTN_SELECT,
        Button::Start => BTN_START,
        Button::Mode => BTN_MODE,
        Button::LeftThumb => BTN_LTHUMB,
        Button::RightThumb => BTN_RTHUMB,
        Button::DPadUp => BTN_DPAD_UP,
        Button::DPadDown => BTN_DPAD_DOWN,
        Button::DPadLeft => BTN_DPAD_LEFT,
        Button::DPadRight => BTN_DPAD_RIGHT,
        Button::Unknown => BTN_UNKNOWN,
    }
}

/// The stable code of each axis.
pub open spec fn spec_map_axis(a: Axis) -> u16 {
    match a {
        Axis::LeftStickX => AXIS_LSTICKX,
        Axis::LeftStickY => AXIS_LSTICKY,
        Axis::LeftZ => AXIS_LEFTZ,
        Axis::RightStickX => AXIS_RSTICKX,
        Axis::RightStickY => AXIS_RSTICKY,
        Axis::RightZ => AXIS_RIGHTZ,
        Axis::DPadX => AXIS_DPADX,
        Axis::DPadY => AXIS_DPADY,
        Axis::Unknown => AXIS_UNKNOWN,
    }
}

/// The normalized event of each gamepad notification: presses,
/// releases and analog changes pass through the code tables; repeats
/// and connection bookkeeping produce nothing.
pub open spec fn spec_map_event(g: GamepadInput) -> Option<Event> {
    match g {
        GamepadInput::ButtonPressed(b) => Some(
            Event::GamepadButtonPress {
                key: spec_map_button(b),
                press_state: PressState::Pressed,
            },
        ),
        GamepadInput::ButtonReleased(b) => Some(
            Event::GamepadButtonPress {
                key: spec_map_button(b),
                press_state: PressState::Released,
            },
        ),
        GamepadInput::ButtonChanged(b, v) => Some(
            Event::GamepadButtonChange { key: spec_map_button(b), value: v },
        ),
        GamepadInput::AxisChanged(a, v) => Some(
            Event::GamepadAxisChange { axis: spec_map_axis(a), value: v },
        ),
        _ => None,
    }
}

/// Looks a button up in the code table.
pub fn map_button(b: Button) -> (code: u16)
    ensures
        code == spec_map_button(b),
{
    match b {
        Button::South => BTN_SOUTH,
        Button::East => BTN_EAST,
        Button::North => BTN_NORTH,
        Button::West => BTN_WEST,
        Button::C => BTN_C,
        Button::Z => BTN_Z,
        Button::LeftTrigger => BTN_LT,
        Button::LeftTrigger2 => BTN_LT2,
        Button::RightTrigger => BTN_RT,
        Button::RightTrigger2 => BTN_RT2,
        Button::Select => BTN_SELECT,
        Button::Start => BTN_START,
        Button::Mode => BTN_MODE,
        Button::LeftThumb => BTN_LTHUMB,
        Button::RightThumb => BTN_RTHUMB,
        Button::DPadUp => BTN_DPAD_UP,
        Button::DPadDown => BTN_DPAD_DOWN,
        Button::DPadLeft => BTN_DPAD_LEFT,
        Button::DPadRight => BTN_DPAD_RIGHT,
        Button::Unknown => BTN_UNKNOWN,
    }
}

/// Looks an axis up in the code table.
pub fn map_axis(a: Axis) -> (code: u16)
    ensures
        code == spec_map_axis(a),
{
    match a {
        Axis::LeftStickX => AXIS_LSTICKX,
        Axis::LeftStickY => AXIS_LSTICKY,
        Axis::LeftZ => AXIS_LEFTZ,
        Axis::RightStickX => AXIS_RSTICKX,
        Axis::RightStickY => AXIS_RSTICKY,
        Axis::RightZ => AXIS_RIGHTZ,
        Axis::DPadX => AXIS_DPADX,
        Axis::DPadY => AXIS_DPADY,
        Axis::Unknown => AXIS_UNKNOWN,
    }
}

/// Turns one gamepad notification into its normalized event, if it
/// carries one.
pub fn map_event(g: &GamepadInput) -> (r: Option<Event>)
    ensures
        r == spec_map_event(*g),
{
    match g {
        GamepadInput::ButtonPressed(b) => Some(
            Event::GamepadButtonPress { key: map_button(*b), press_state: PressState::Pressed },
        ),
        GamepadInput::ButtonReleased(b) => Some(
            Event::GamepadButtonPress { key: map_button(*b), press_state: PressState::Released },
        ),
        GamepadInput::ButtonChanged(b, v) => Some(
            Event::GamepadButtonChange { key: map_button(*b), value: *v },
        ),
        GamepadInput::AxisChanged(a, v) => Some(
            Event::GamepadAxisChange { axis: map_axis(*a), value: *v },
        ),
        GamepadInput::ButtonRepeated(_) => None,
        GamepadInput::Connected => None,
        GamepadInput::Disconnected => None,
        GamepadInput::Dropped => None,
    }
}

} // verus!
