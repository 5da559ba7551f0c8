//! The input-log format: a header row, then one row per event, with
//! synthetic `START` and `END` markers bracketing the session.
//!
//! Each row is `<seconds>.<6 fractional digits>,<TAG>,"[<payload>]"` and
//! ends with a newline; the payload is a JSON array whose shape is fixed
//! per tag.  [`InputRecorder`] assembles the rows of one session in
//! order; persisting them is the caller's business.

use vstd::prelude::*;
use vstd::string::StringExecFns;
use crate::events::{AnalogValue, Event, PressState};
use crate::numfmt::{
    analog_chars, dec_chars, dec_chars_padded, int_chars, push_analog, push_dec_padded,
    push_i64_dec, push_u64_dec,
};

verus! {

/// One row of the log: a synthetic session marker or an input event.
#[derive(Debug, Clone, Copy, PartialEq, Eq, Structural)]
pub enum LogEvent {
    Start,
    End,
    Input(Event),
}

/// The header row, without its newline.
pub open spec fn header_chars() -> Seq<char> {
    "timestamp,event_type,event_args"@
}

/// The tag naming a row's event type.
pub open spec fn tag_chars(ev: LogEvent) -> Seq<char> {
    match ev {
        LogEvent::Start => "START"@,
        LogEvent::End => "END"@,
        LogEvent::Input(e) => match e {
            Event::MouseMove { .. } => "MOUSE_MOVE"@,
            Event::MousePress { .. } => "MOUSE_BUTTON"@,
            Event::MouseScroll { .. } => "SCROLL"@,
            Event::KeyPress { .. } => "KEYBOARD"@,
            Event::GamepadButtonPress { .. } => "GAMEPAD_BUTTON"@,
            Event::GamepadButtonChange { .. } => "GAMEPAD_BUTTON_VALUE"@,
            Event::GamepadAxisChange { .. } => "GAMEPAD_AXIS"@,
        },
    }
}

/// The rendering of a JSON boolean.
pub open spec fn bool_chars(b: bool) -> Seq<char> {
    if b {
        "true"@
    } else {
        "false"@
    }
}

/// The contents of a row's JSON payload array, between its brackets.
pub open spec fn payload_chars(ev: LogEvent) -> Seq<char> {
    match ev {
        LogEvent::Start => Seq::<char>::empty(),
        LogEvent::End => Seq::<char>::empty(),
        LogEvent::Input(e) => match e {
            Event::MouseMove { dx, dy } => int_chars(dx as int) + ","@ + int_chars(dy as int),
            Event::MousePress { key, press_state } => dec_chars(key as nat) + ","@ + bool_chars(
                press_state is Pressed,
            ),
            Event::MouseScroll { scroll_amount } => int_chars(scroll_amount as int),
            Event::KeyPress { key, press_state } => dec_chars(key as nat) + ","@ + bool_chars(
                press_state is Pressed,
            ),
            Event::GamepadButtonPress { key, press_state } => dec_chars(key as nat) + ","@
                + bool_chars(press_state is Pressed),
            Event::GamepadButtonChange { key, value } => dec_chars(key as nat) + ","@
                + analog_chars(value.micros as int),
            Event::GamepadAxisChange { axis, value } => dec_chars(axis as nat) + ","@
                + analog_chars(value.micros as int),
        },
    }
}

/// A whole row: wall-clock timestamp with six fractional digits, tag,
/// quoted JSON payload array, newline.
pub open spec fn row_chars(secs: nat, micros: nat, ev: LogEvent) -> Seq<char> {
    dec_chars(secs) + "."@ + dec_chars_padded(micros, 6) + ","@ + tag_chars(ev) + ","@ + "\""@
        + "["@ + payload_chars(ev) + "]"@ + "\""@ + "\n"@
}

/// Appends the tag of `ev`.
fn push_tag(out: &mut String, ev: &LogEvent)
    ensures
        final(out)@ == old(out)@ + tag_chars(*ev),
{
    match ev {
        LogEvent::Start => out.append("START"),
        LogEvent::End => out.append("END"),
        LogEvent::Input(e) => match e {
            Event::MouseMove { .. } => out.append("MOUSE_MOVE"),
            Event::MousePress { .. } => out.append("MOUSE_BUTTON"),
            Event::MouseScroll { .. } => out.append("SCROLL"),
            Event::KeyPress { .. } => out.append("KEYBOARD"),
            Event::GamepadButtonPress { .. } => out.append("GAMEPAD_BUTTON"),
            Event::GamepadButtonChange { .. } => out.append("GAMEPAD_BUTTON_VALUE"),
            Event::GamepadAxisChange { .. } => out.append("GAMEPAD_AXIS"),
        },
    }
}

/// Appends `<code>,<true|false>` for a digital press payload.
fn push_press_payload(out: &mut String, key: u16, press_state: &PressState)
    ensures
        final(out)@ == old(out)@ + dec_chars(key as nat) + ","@ + bool_chars(
            *press_state is Pressed,
        ),
{
    push_u64_dec(out, key as u64);
    out.append(",");
    match press_state {
        PressState::Pressed => out.append("true"),
        PressState::Released => out.append("false"),
    }
    proof {
        assert(final(out)@ =~= old(out)@ + dec_chars(key as nat) + ","@ + bool_chars(
            *press_state is Pressed,
        ));
    }
}

/// Appends `<code>,<value>` for an analog change payload.
fn push_value_payload(out: &mut String, code: u16, value: &AnalogValue)
    ensures
        final(out)@ == old(out)@ + dec_chars(code as nat) + ","@ + analog_chars(
            value.micros as int,
        ),
{
    push_u64_dec(out, code as u64);
    out.append(",");
    push_analog(out, value.micros);
    proof {
        assert(final(out)@ =~= old(out)@ + dec_chars(code as nat) + ","@ + analog_chars(
            value.micros as int,
        ));
    }
}

/// Renders one row for the event `ev` at the given wall-clock time.
pub fn write_row(secs: u64, micros: u32, ev: &LogEvent) -> (row: String)
    requires
        micros < 1_000_000,
    ensures
        row@ == row_chars(secs as nat, micros as nat, *ev),
{
    let mut out = String::new();
    push_u64_dec(&mut out, secs);
    out.append(".");
    push_dec_padded(&mut out, micros as u64, 6);
    out.append(",");
    push_tag(&mut out, ev);
    out.append(",");
    out.append("\"");
    out.append("[");
    match ev {
        LogEvent::Start => (),
        LogEvent::End => (),
        LogEvent::Input(e) => match e {
            Event::MouseMove { dx, dy } => {
                push_i64_dec(&mut out, *dx as i64);
                out.append(",");
                push_i64_dec(&mut out, *dy as i64);
            },
            Event::MousePress { key, press_state } => push_press_payload(
                &mut out,
                *key,
                press_state,
            ),
            Event::MouseScroll { scroll_amount } => push_i64_dec(&mut out, *scroll_amount as i64),
            Event::KeyPress { key, press_state } => push_press_payload(&mut out, *key, press_state),
            Event::GamepadButtonPress { key, press_state } => push_press_payload(
                &mut out,
                *key,
                press_state,
            ),
            Event::GamepadButtonChange { key, value } => push_value_payload(&mut out, *key, value),
            Event::GamepadAxisChange { axis, value } => push_value_payload(&mut out, *axis, value),
        },
    }
    out.append("]");
    out.append("\"");
    out.append("\n");
    proof {
        assert(out@ =~= row_chars(secs as nat, micros as nat, *ev));
    }
    out
}

/// The header row with its newline.
pub fn write_header() -> (row: String)
    ensures
        row@ == header_chars() + "\n"@,
{
    let mut out = String::new();
    out.append("timestamp,event_type,event_args");
    out.append("\n");
    out
}

/// Append-only log sink for one session: hands out the rendered rows in
/// order and keeps the whole log as its ghost history.
pub struct InputRecorder {
    history: Ghost<Seq<Seq<char>>>,
    ended: bool,
}

impl InputRecorder {
    /// Every line handed out so far, in order.
    pub closed spec fn lines(self) -> Seq<Seq<char>> {
        self.history@
    }

    /// Whether the terminal marker has been written.
    pub closed spec fn is_ended(self) -> bool {
        self.ended
    }

    /// Opens the log: the header row and the `START` marker.
    pub fn start(secs: u64, micros: u32) -> (r: (InputRecorder, Vec<String>))
        requires
            micros < 1_000_000,
        ensures
            !r.0.is_ended(),
            r.0.lines() =~= seq![
                header_chars() + "\n"@,
                row_chars(secs as nat, micros as nat, LogEvent::Start),
            ],
            r.1@.len() == 2,
            r.1@[0]@ == r.0.lines()[0],
            r.1@[1]@ == r.0.lines()[1],
    {
        let header = write_header();
        let start_row = write_row(secs, micros, &LogEvent::Start);
        let ghost history = seq![header@, start_row@];
        let mut rows: Vec<String> = Vec::new();
        rows.push(header);
        rows.push(start_row);
        (InputRecorder { history: Ghost(history), ended: false }, rows)
    }

    /// Records one input event; the returned row is the line to append
    /// to the log file.
    pub fn seen_input(&mut self, e: &Event, secs: u64, micros: u32) -> (row: String)
        requires
            micros < 1_000_000,
            !old(self).is_ended(),
        ensures
            row@ == row_chars(secs as nat, micros as nat, LogEvent::Input(*e)),
            final(self).lines() =~= old(self).lines().push(row@),
            !final(self).is_ended(),
    {
        let row = write_row(secs, micros, &LogEvent::Input(*e));
        proof {
            self.history@ = self.history@.push(row@);
        }
        row
    }

    /// Closes the log with the `END` marker.
    pub fn stop(self, secs: u64, micros: u32) -> (r: (InputRecorder, String))
        requires
            micros < 1_000_000,
            !self.is_ended(),
        ensures
            r.0.is_ended(),
            r.0.lines() =~= self.lines().push(r.1@),
            r.1@ == row_chars(secs as nat, micros as nat, LogEvent::End),
    {
        let row = write_row(secs, micros, &LogEvent::End);
        let ghost history = self.history@.push(row@);
        (InputRecorder { history: Ghost(history), ended: true }, row)
    }
}

} // verus!
