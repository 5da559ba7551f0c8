use owl_recorder::events::{lookup_keycode, AnalogValue, Event, PressState};
use owl_recorder::gamepad::{map_button, map_event, Axis, Button, GamepadInput};
use owl_recorder::hardware::{
    parse_gpu_listing, unbraced_hardware_id, vendor_name, vendor_of, GpuVendor,
};
use owl_recorder::idle::IdlenessTracker;
use owl_recorder::joystick::{diff, FieldChange, JoyGroup, JoystickState};
use owl_recorder::raw_input::{
    decode_keyboard_input, decode_mouse_input, RI_KEY_BREAK, RI_MOUSE_BUTTON_5_UP,
    RI_MOUSE_LEFT_BUTTON_DOWN, RI_MOUSE_LEFT_BUTTON_UP, RI_MOUSE_RIGHT_BUTTON_DOWN,
    RI_MOUSE_RIGHT_BUTTON_UP, RI_MOUSE_WHEEL,
};

#[test]
fn mouse_decode_motion_button_and_wheel() {
    // A negative wheel delta arrives as the two's-complement word.
    let wheel_data = (-120i16) as u16;
    let evs = decode_mouse_input(3, -4, RI_MOUSE_LEFT_BUTTON_DOWN | RI_MOUSE_WHEEL, wheel_data);
    assert_eq!(evs.len(), 3);
    assert_eq!(evs[0], Event::MouseMove { dx: 3, dy: -4 });
    assert_eq!(evs[1], Event::MousePress { key: 1, press_state: PressState::Pressed });
    assert_eq!(evs[2], Event::MouseScroll { scroll_amount: -120 });
}

#[test]
fn mouse_decode_coalesced_buttons_all_emitted() {
    // The OS may coalesce simultaneous button changes into one
    // notification: every set flag yields its own event, in flag order.
    let evs = decode_mouse_input(0, 0, RI_MOUSE_LEFT_BUTTON_DOWN | RI_MOUSE_RIGHT_BUTTON_DOWN, 0);
    assert_eq!(evs.len(), 2);
    assert_eq!(evs[0], Event::MousePress { key: 1, press_state: PressState::Pressed });
    assert_eq!(evs[1], Event::MousePress { key: 2, press_state: PressState::Pressed });

    // A press and release of the same button in one notification.
    let evs = decode_mouse_input(0, 0, RI_MOUSE_LEFT_BUTTON_DOWN | RI_MOUSE_LEFT_BUTTON_UP, 0);
    assert_eq!(evs.len(), 2);
    assert_eq!(evs[0], Event::MousePress { key: 1, press_state: PressState::Pressed });
    assert_eq!(evs[1], Event::MousePress { key: 1, press_state: PressState::Released });

    // Motion, two button changes and the wheel in one notification.
    let evs = decode_mouse_input(
        5,
        6,
        RI_MOUSE_RIGHT_BUTTON_UP | RI_MOUSE_BUTTON_5_UP | RI_MOUSE_WHEEL,
        120,
    );
    assert_eq!(evs.len(), 4);
    assert_eq!(evs[0], Event::MouseMove { dx: 5, dy: 6 });
    assert_eq!(evs[1], Event::MousePress { key: 2, press_state: PressState::Released });
    assert_eq!(evs[2], Event::MousePress { key: 6, press_state: PressState::Released });
    assert_eq!(evs[3], Event::MouseScroll { scroll_amount: 120 });
}

#[test]
fn mouse_decode_release_and_quiet() {
    let evs = decode_mouse_input(0, 0, RI_MOUSE_RIGHT_BUTTON_UP, 0);
    assert_eq!(evs.len(), 1);
    assert_eq!(evs[0], Event::MousePress { key: 2, press_state: PressState::Released });
    assert!(decode_mouse_input(0, 0, 0, 0).is_empty());
}

#[test]
fn keyboard_decode_press_and_break() {
    assert_eq!(
        decode_keyboard_input(65, 0),
        Event::KeyPress { key: 65, press_state: PressState::Pressed }
    );
    assert_eq!(
        decode_keyboard_input(65, RI_KEY_BREAK),
        Event::KeyPress { key: 65, press_state: PressState::Released }
    );
}

#[test]
fn gamepad_code_table() {
    assert_eq!(map_button(Button::South), 1);
    assert_eq!(map_button(Button::DPadRight), 19);
    assert_eq!(map_button(Button::Unknown), 0);
    let v = AnalogValue { micros: 500_000 };
    assert_eq!(
        map_event(&GamepadInput::ButtonPressed(Button::Start)),
        Some(Event::GamepadButtonPress { key: 12, press_state: PressState::Pressed })
    );
    assert_eq!(
        map_event(&GamepadInput::AxisChanged(Axis::RightStickY, v)),
        Some(Event::GamepadAxisChange { axis: 5, value: v })
    );
    assert_eq!(map_event(&GamepadInput::ButtonRepeated(Button::South)), None);
    assert_eq!(map_event(&GamepadInput::Connected), None);
}

#[test]
fn hotkey_names_resolve() {
    assert_eq!(lookup_keycode("F4"), Some(0x73));
    assert_eq!(lookup_keycode("F5"), Some(0x74));
    assert_eq!(lookup_keycode("F12"), Some(0x7B));
    assert_eq!(lookup_keycode("F24"), Some(0x87));
    assert_eq!(lookup_keycode("A"), Some(65));
    assert_eq!(lookup_keycode("7"), Some(55));
    assert_eq!(lookup_keycode("F25"), None);
    assert_eq!(lookup_keycode("F0"), None);
    assert_eq!(lookup_keycode(""), None);
    assert_eq!(lookup_keycode("fn"), None);
}

#[test]
fn idleness_tracker_threshold() {
    let mut idle = IdlenessTracker::new(5_000_000, 0);
    assert!(!idle.is_idle(4_999_999));
    assert!(idle.is_idle(5_000_000));
    idle.update_activity(6_000_000);
    assert!(!idle.is_idle(10_000_000));
    assert!(idle.is_idle(11_000_000));
}

fn snapshot() -> JoystickState {
    JoystickState {
        axes: vec![0; 6],
        sliders: vec![0; 2],
        povs: vec![0; 4],
        buttons: vec![0; 128],
    }
}

#[test]
fn joystick_diff_names_changed_channels() {
    let prev = snapshot();
    let mut cur = snapshot();
    cur.axes[2] = 512;
    cur.buttons[5] = 128;
    let changes = diff(&prev, &cur);
    assert_eq!(changes.len(), 2);
    assert_eq!(
        changes[0],
        FieldChange { group: JoyGroup::Axis, index: 2, before: 0, after: 512 }
    );
    assert_eq!(
        changes[1],
        FieldChange { group: JoyGroup::Button, index: 5, before: 0, after: 128 }
    );
    assert!(diff(&prev, &prev).is_empty());
}

#[test]
fn gpu_listing_parse_and_vendor() {
    let text = "Node,Name\r\n\r\nHOST-1,NVIDIA GeForce RTX 3080 \r\nHOST-1,Intel UHD 770\r\n";
    let gpus = parse_gpu_listing(text, 2);
    assert_eq!(gpus.len(), 2);
    assert_eq!(gpus[0].name, "NVIDIA GeForce RTX 3080");
    assert_eq!(gpus[0].vendor, "NVIDIA");
    assert_eq!(gpus[1].name, "Intel UHD 770");
    assert_eq!(gpus[1].vendor, "Intel");
    // Lines without a comma or with an empty field yield nothing.
    assert!(parse_gpu_listing("Name\nonly-one-field\nHOST,\n", 0).is_empty());
}

#[test]
fn hardware_id_brace_stripping() {
    assert_eq!(
        unbraced_hardware_id("{12345678-90ab-cdef-1234-567890abcdef}"),
        "12345678-90ab-cdef-1234-567890abcdef"
    );
    assert_eq!(unbraced_hardware_id("plain-id"), "plain-id");
    assert_eq!(unbraced_hardware_id("{}"), "");
    assert_eq!(unbraced_hardware_id("{"), "{");
}

#[test]
fn vendor_classification() {
    assert_eq!(vendor_of("NVIDIA GeForce"), GpuVendor::Nvidia);
    assert_eq!(vendor_of("amd radeon rx"), GpuVendor::Amd);
    assert_eq!(vendor_of("Radeon RX 6800"), GpuVendor::Amd);
    assert_eq!(vendor_of("Intel Arc"), GpuVendor::Intel);
    assert_eq!(vendor_of("Matrox"), GpuVendor::Unknown);
    assert_eq!(vendor_name(GpuVendor::Amd), "AMD");
}
