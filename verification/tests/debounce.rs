use owl_recorder::debounce::{
    AnalogDebouncer, EventDebouncer, KeyDebouncer, MIN_ANALOG_GAP_MICROS,
};
use owl_recorder::events::PressState::{Pressed, Released};
use owl_recorder::events::{AnalogValue, Event, PressState};

#[test]
fn test_key_debouncer() {
    let mut debouncer = KeyDebouncer::new();

    assert!(debouncer.debounce(65, Pressed));
    assert!(!debouncer.debounce(65, Pressed));
    assert!(!debouncer.debounce(65, Pressed));
    assert!(debouncer.debounce(65, Released));
    assert!(debouncer.debounce(65, Pressed));
    assert!(!debouncer.debounce(65, Pressed));
}

#[test]
fn release_always_forwarded_even_untracked() {
    let mut debouncer = KeyDebouncer::new();
    assert!(debouncer.debounce(12, PressState::Released));
    assert!(debouncer.debounce(12, PressState::Released));
    assert!(debouncer.debounce(12, PressState::Pressed));
    assert!(debouncer.debounce(12, PressState::Released));
    assert!(debouncer.debounce(12, PressState::Pressed));
}

#[test]
fn key_namespaces_are_independent() {
    let mut debouncer = EventDebouncer::new();
    assert!(debouncer.debounce(
        Event::KeyPress { key: 65, press_state: PressState::Pressed },
        0
    ));
    // The same code on another device class is its own edge.
    assert!(debouncer.debounce(
        Event::MousePress { key: 65, press_state: PressState::Pressed },
        0
    ));
    assert!(!debouncer.debounce(
        Event::KeyPress { key: 65, press_state: PressState::Pressed },
        0
    ));
}

#[test]
fn analog_channel_window_forwards_once() {
    let mut debouncer = AnalogDebouncer::new();
    assert_eq!(MIN_ANALOG_GAP_MICROS, 8333);
    // Five changes within one minimum gap: exactly the first passes.
    assert!(debouncer.debounce(3, 1_000_000));
    assert!(!debouncer.debounce(3, 1_002_000));
    assert!(!debouncer.debounce(3, 1_004_000));
    assert!(!debouncer.debounce(3, 1_006_000));
    assert!(!debouncer.debounce(3, 1_008_333));
    // One microsecond past the gap passes again.
    assert!(debouncer.debounce(3, 1_008_334));
}

#[test]
fn analog_channels_are_independent() {
    let mut debouncer = AnalogDebouncer::new();
    assert!(debouncer.debounce(1, 500));
    assert!(debouncer.debounce(2, 600));
    assert!(!debouncer.debounce(1, 700));
}

#[test]
fn mouse_move_and_scroll_never_debounced() {
    let mut debouncer = EventDebouncer::new();
    for t in 0..10u64 {
        assert!(debouncer.debounce(Event::MouseMove { dx: 1, dy: 0 }, t));
        assert!(debouncer.debounce(Event::MouseScroll { scroll_amount: -1 }, t));
    }
}

#[test]
fn analog_event_rate_limited_by_channel() {
    let mut debouncer = EventDebouncer::new();
    let v = AnalogValue { micros: 250_000 };
    assert!(debouncer.debounce(Event::GamepadAxisChange { axis: 1, value: v }, 0));
    assert!(!debouncer.debounce(Event::GamepadAxisChange { axis: 1, value: v }, 4_000));
    assert!(debouncer.debounce(Event::GamepadButtonChange { key: 1, value: v }, 4_000));
    assert!(debouncer.debounce(Event::GamepadAxisChange { axis: 1, value: v }, 8_334));
}
