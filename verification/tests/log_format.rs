use owl_recorder::events::{AnalogValue, Event, PressState};
use owl_recorder::input_log::{write_header, write_row, InputRecorder, LogEvent};
use owl_recorder::rowparse::{parse_row, ParsedRow};

#[test]
fn header_row_text() {
    assert_eq!(write_header(), "timestamp,event_type,event_args\n");
}

#[test]
fn start_and_end_rows() {
    assert_eq!(write_row(7, 0, &LogEvent::Start), "7.000000,START,\"[]\"\n");
    assert_eq!(write_row(9, 999_999, &LogEvent::End), "9.999999,END,\"[]\"\n");
}

#[test]
fn keyboard_row_text() {
    let row = write_row(
        5,
        250_000,
        &LogEvent::Input(Event::KeyPress { key: 65, press_state: PressState::Pressed }),
    );
    assert_eq!(row, "5.250000,KEYBOARD,\"[65,true]\"\n");
    let up = write_row(
        5,
        260_000,
        &LogEvent::Input(Event::KeyPress { key: 65, press_state: PressState::Released }),
    );
    assert_eq!(up, "5.260000,KEYBOARD,\"[65,false]\"\n");
}

#[test]
fn mouse_move_row_round_trip() {
    let ev = LogEvent::Input(Event::MouseMove { dx: 12, dy: -7 });
    let row = write_row(1_700_000_000, 123_456, &ev);
    assert_eq!(row, "1700000000.123456,MOUSE_MOVE,\"[12,-7]\"\n");
    let parsed = parse_row(&row);
    assert_eq!(
        parsed,
        Some(ParsedRow { secs: 1_700_000_000, micros: 123_456, event: ev })
    );
    match parsed.unwrap().event {
        LogEvent::Input(Event::MouseMove { dx, dy }) => {
            assert_eq!((dx, dy), (12, -7));
        }
        _ => panic!("wrong event kind"),
    }
}

#[test]
fn scroll_row_round_trip() {
    let ev = LogEvent::Input(Event::MouseScroll { scroll_amount: -120 });
    let row = write_row(3, 1, &ev);
    assert_eq!(row, "3.000001,SCROLL,\"[-120]\"\n");
    assert_eq!(parse_row(&row), Some(ParsedRow { secs: 3, micros: 1, event: ev }));
}

#[test]
fn mouse_button_row_round_trip() {
    let ev = LogEvent::Input(Event::MousePress { key: 2, press_state: PressState::Released });
    let row = write_row(42, 500_000, &ev);
    assert_eq!(row, "42.500000,MOUSE_BUTTON,\"[2,false]\"\n");
    assert_eq!(parse_row(&row), Some(ParsedRow { secs: 42, micros: 500_000, event: ev }));
}

#[test]
fn gamepad_rows_round_trip() {
    let press = LogEvent::Input(Event::GamepadButtonPress {
        key: 7,
        press_state: PressState::Pressed,
    });
    let row = write_row(1, 0, &press);
    assert_eq!(row, "1.000000,GAMEPAD_BUTTON,\"[7,true]\"\n");
    assert_eq!(parse_row(&row), Some(ParsedRow { secs: 1, micros: 0, event: press }));

    let trig = LogEvent::Input(Event::GamepadButtonChange {
        key: 9,
        value: AnalogValue { micros: 750_000 },
    });
    let row = write_row(1, 0, &trig);
    assert_eq!(row, "1.000000,GAMEPAD_BUTTON_VALUE,\"[9,0.750000]\"\n");
    assert_eq!(parse_row(&row), Some(ParsedRow { secs: 1, micros: 0, event: trig }));

    let axis = LogEvent::Input(Event::GamepadAxisChange {
        axis: 3,
        value: AnalogValue { micros: -250_000 },
    });
    let row = write_row(2, 0, &axis);
    assert_eq!(row, "2.000000,GAMEPAD_AXIS,\"[3,-0.250000]\"\n");
    assert_eq!(parse_row(&row), Some(ParsedRow { secs: 2, micros: 0, event: axis }));
}

#[test]
fn analog_payload_is_json() {
    let ev = LogEvent::Input(Event::GamepadAxisChange {
        axis: 3,
        value: AnalogValue { micros: -1_000_000 },
    });
    let row = write_row(2, 0, &ev);
    // The payload between the quotes is a JSON array.
    let payload = row.trim_end().split(',').skip(2).collect::<Vec<_>>().join(",");
    let payload = payload.trim_matches('"');
    let v: serde_json::Value = serde_json::from_str(payload).unwrap();
    assert_eq!(v[0], 3);
    assert_eq!(v[1].as_f64().unwrap(), -1.0);
}

#[test]
fn parse_rejects_malformed_rows() {
    assert_eq!(parse_row(""), None);
    assert_eq!(parse_row("hello"), None);
    assert_eq!(parse_row("1.000000,KEYBOARD,\"[65,true]\""), None);
    assert_eq!(parse_row("1.000000,KEYBOARD,\"[65,maybe]\"\n"), None);
    assert_eq!(parse_row("1.00,KEYBOARD,\"[65,true]\"\n"), None);
    assert_eq!(parse_row("1.000000,WRONG_TAG,\"[]\"\n"), None);
    assert_eq!(parse_row("1.000000,MOUSE_MOVE,\"[12]\"\n"), None);
    assert_eq!(parse_row("01.000000,START,\"[]\"\n"), None);
    assert_eq!(parse_row("1.000000,KEYBOARD,\"[70000,true]\"\n"), None);
    assert_eq!(parse_row("1.0000000,START,\"[]\"\n"), None);
    assert_eq!(parse_row("1.000000,START,\"[]\"\nmore"), None);
    assert_eq!(parse_row("1.000000,GAMEPAD_AXIS,\"[3,-0.25]\"\n"), None);
}

#[test]
fn input_recorder_brackets_session() {
    let (mut rec, lines) = InputRecorder::start(10, 0);
    assert_eq!(lines.len(), 2);
    assert_eq!(lines[0], "timestamp,event_type,event_args\n");
    assert_eq!(lines[1], "10.000000,START,\"[]\"\n");
    let row = rec.seen_input(
        &Event::KeyPress { key: 32, press_state: PressState::Pressed },
        10,
        500_000,
    );
    assert_eq!(row, "10.500000,KEYBOARD,\"[32,true]\"\n");
    let (_closed, end) = rec.stop(11, 0);
    assert_eq!(end, "11.000000,END,\"[]\"\n");
}
