//! Reading input-log rows back into events.
//!
//! The parser accepts exactly the rows that [`crate::input_log`] emits:
//! a decimal timestamp with six fractional digits, one of the fixed
//! tags, and the tag's quoted JSON payload array, ending in a newline.
//! Its contract is stated against a specification-level parser, and the
//! round-trip lemma shows that parsing a rendered row yields the record
//! it was rendered from.

use vstd::prelude::*;
use vstd::string::StrSliceExecFns;
use crate::events::{AnalogValue, Event, PressState};
use crate::input_log::LogEvent;
use crate::numfmt::{
    analog_chars, dec_chars, dec_chars_padded, digit_char, digit_val, int_chars, is_digit_char,
    lemma_dec_chars_digits, lemma_dec_chars_len_le, lemma_dec_chars_no_leading_zero,
    lemma_dec_chars_padded_digits, lemma_dec_chars_padded_value, lemma_dec_chars_value,
    lemma_pow10_pos, pow10, run_value,
};

verus! {

/// A row read back from the log.
#[derive(Debug, Clone, Copy, PartialEq, Eq, Structural)]
pub struct ParsedRow {
    pub secs: u64,
    pub micros: u32,
    pub event: LogEvent,
}

/// End of the run of digit characters starting at `from`.
pub open spec fn digit_run_end(s: Seq<char>, from: int) -> int
    decreases s.len() - from
        when 0 <= from <= s.len()
{
    if from < s.len() && is_digit_char(s[from]) {
        digit_run_end(s, from + 1)
    } else {
        from
    }
}

/// The digit run starting at `from` spans exactly `[from, end)`: every
/// character in it is a digit and the character after it, if any, is
/// not.
pub proof fn lemma_digit_run_end_props(s: Seq<char>, from: int)
    requires
        0 <= from <= s.len(),
    ensures
        from <= digit_run_end(s, from) <= s.len(),
        forall|i: int| from <= i < digit_run_end(s, from) ==> is_digit_char(#[trigger] s[i]),
        digit_run_end(s, from) == s.len() || !is_digit_char(s[digit_run_end(s, from)]),
    decreases s.len() - from,
{
    if from < s.len() && is_digit_char(s[from]) {
        lemma_digit_run_end_props(s, from + 1);
    }
}

/// Any index with the digit-run properties is the digit run's end.
pub proof fn lemma_digit_run_end_is(s: Seq<char>, from: int, i: int)
    requires
        0 <= from <= i <= s.len(),
        forall|j: int| from <= j < i ==> is_digit_char(#[trigger] s[j]),
        i == s.len() || !is_digit_char(s[i]),
    ensures
        digit_run_end(s, from) == i,
    decreases s.len() - from,
{
    if from < s.len() && is_digit_char(s[from]) {
        lemma_digit_run_end_is(s, from + 1, i);
    }
}

/// A number as the log writes one: a non-empty digit run with no
/// leading zero and at most 20 digits, yielding its value and the index
/// after the run.
pub open spec fn scan_number(s: Seq<char>, from: int) -> Option<(int, int)> {
    let end = digit_run_end(s, from);
    if end == from {
        None
    } else if s[from] == '0' && end - from > 1 {
        None
    } else if end - from > 20 {
        None
    } else {
        Some((run_value(s, from, end), end))
    }
}

/// A signed integer: an optional minus sign, then a number, accepted
/// only within `[lo, hi]`.
pub open spec fn scan_int(s: Seq<char>, from: int, lo: int, hi: int) -> Option<(int, int)> {
    let neg = from < s.len() && s[from] == '-';
    let d0 = if neg {
        from + 1
    } else {
        from
    };
    match scan_number(s, d0) {
        Option::None => Option::None,
        Option::Some((v0, end)) => {
            let v = if neg {
                -v0
            } else {
                v0
            };
            if lo <= v <= hi {
                Option::Some((v, end))
            } else {
                Option::None
            }
        },
    }
}

/// A fixed-point value in millionths: an optional minus sign, an
/// integer part, a dot and exactly six fractional digits, accepted only
/// within the `i64` range.
pub open spec fn scan_analog(s: Seq<char>, from: int) -> Option<(int, int)> {
    let neg = from < s.len() && s[from] == '-';
    let d0 = if neg {
        from + 1
    } else {
        from
    };
    match scan_number(s, d0) {
        Option::None => Option::None,
        Option::Some((ip, dot)) => {
            if dot < s.len() && s[dot] == '.' && dot + 7 <= s.len() && digit_run_end(s, dot + 1)
                == dot + 7 {
                let frac = run_value(s, dot + 1, dot + 7);
                let v = if neg {
                    -(ip * 1000000 + frac)
                } else {
                    ip * 1000000 + frac
                };
                if i64::MIN <= v <= i64::MAX {
                    Option::Some((v, dot + 7))
                } else {
                    Option::None
                }
            } else {
                Option::None
            }
        },
    }
}

/// `s` holds `pre` starting at index `at`.
pub open spec fn has_prefix(s: Seq<char>, at: int, pre: Seq<char>) -> bool {
    0 <= at && at + pre.len() <= s.len() && s.subrange(at, at + pre.len()) == pre
}

/// A prefix made of two pieces is the two prefixes in turn.
pub proof fn lemma_has_prefix_concat(s: Seq<char>, at: int, a: Seq<char>, b: Seq<char>)
    requires
        0 <= at,
    ensures
        has_prefix(s, at, a + b) == (has_prefix(s, at, a) && has_prefix(s, at + a.len(), b)),
{
    if has_prefix(s, at, a + b) {
        let l = a.len() + b.len();
        assert forall|j: int| 0 <= j < a.len() implies s.subrange(at, at + a.len())[j] == a[j] by {
            assert(s.subrange(at, at + l)[j] == (a + b)[j]);
        }
        assert forall|j: int|
            0 <= j < b.len() implies s.subrange(at + a.len(), at + a.len() + b.len())[j] == b[
            j
        ] by {
            assert(s.subrange(at, at + l)[a.len() + j] == (a + b)[a.len() + j]);
        }
        assert(s.subrange(at, at + a.len()) =~= a);
        assert(s.subrange(at + a.len(), at + a.len() + b.len()) =~= b);
    }
    if has_prefix(s, at, a) && has_prefix(s, at + a.len(), b) {
        assert(s.subrange(at, at + a.len() + b.len()) =~= a + b);
    }
}

/// A held prefix pins each character it covers.
pub proof fn lemma_has_prefix_index(s: Seq<char>, at: int, pre: Seq<char>, j: int)
    requires
        has_prefix(s, at, pre),
        0 <= j < pre.len(),
    ensures
        s[at + j] == pre[j],
{
    assert(s.subrange(at, at + pre.len())[j] == s[at + j]);
}

/// Ten to the twentieth power exceeds `u64::MAX`, so no rendered `u64`
/// is longer than 20 digits.
proof fn lemma_pow10_20_large()
    ensures
        pow10(20) > u64::MAX as nat,
{
    reveal_with_fuel(pow10, 21);
}

/// Scanning a rendered number at its own position yields the value it
/// was rendered from, provided the character after it is not a digit.
pub proof fn lemma_scan_number_formatted(s: Seq<char>, from: int, n: nat)
    requires
        has_prefix(s, from, dec_chars(n)),
        n <= u64::MAX,
        from + dec_chars(n).len() == s.len() || !is_digit_char(s[from + dec_chars(n).len()]),
    ensures
        scan_number(s, from) == Option::Some((n as int, from + dec_chars(n).len())),
{
    let d = dec_chars(n);
    let end = from + d.len();
    lemma_dec_chars_digits(n);
    assert forall|i: int| from <= i < end implies is_digit_char(#[trigger] s[i]) by {
        lemma_has_prefix_index(s, from, d, i - from);
    }
    lemma_digit_run_end_is(s, from, end);
    lemma_has_prefix_index(s, from, d, 0);
    if d.len() > 1 {
        lemma_dec_chars_no_leading_zero(n);
        assert(digit_char(0) == '0');
        assert(s[from] != '0');
    }
    lemma_pow10_20_large();
    lemma_dec_chars_len_le(n, 20);
    assert(s.subrange(from, end) == d);
    crate::numfmt::lemma_run_value_shift(s, from, end);
    lemma_dec_chars_value(n);
}

/// Scanning six rendered padded digits yields the value they were
/// rendered from, provided it is below one million and the character
/// after them is not a digit.
pub proof fn lemma_scan_padded6_formatted(s: Seq<char>, from: int, n: nat)
    requires
        has_prefix(s, from, dec_chars_padded(n, 6)),
        n < 1_000_000,
        from + 6 == s.len() || !is_digit_char(s[from + 6]),
    ensures
        digit_run_end(s, from) == from + 6,
        run_value(s, from, from + 6) == n,
{
    let d = dec_chars_padded(n, 6);
    lemma_dec_chars_padded_digits(n, 6);
    assert forall|i: int| from <= i < from + 6 implies is_digit_char(#[trigger] s[i]) by {
        lemma_has_prefix_index(s, from, d, i - from);
    }
    lemma_digit_run_end_is(s, from, from + 6);
    assert(s.subrange(from, from + 6) == d);
    crate::numfmt::lemma_run_value_shift(s, from, from + 6);
    lemma_dec_chars_padded_value(n, 6);
    reveal_with_fuel(pow10, 7);
    assert(pow10(6) == 1_000_000);
    vstd::arithmetic::div_mod::lemma_small_mod(n, 1_000_000);
}

/// Scanning a rendered signed integer yields the value it was rendered
/// from, provided it lies in the accepted range and the character after
/// it is not a digit.
pub proof fn lemma_scan_int_formatted(s: Seq<char>, from: int, v: int, lo: int, hi: int)
    requires
        has_prefix(s, from, int_chars(v)),
        lo <= v <= hi,
        -(u64::MAX as int) <= v <= u64::MAX as int,
        from + int_chars(v).len() == s.len() || !is_digit_char(s[from + int_chars(v).len()]),
    ensures
        scan_int(s, from, lo, hi) == Option::Some((v, from + int_chars(v).len())),
{
    if v < 0 {
        let mag = (-v) as nat;
        lemma_has_prefix_concat(s, from, seq!['-'], dec_chars(mag));
        lemma_has_prefix_index(s, from, seq!['-'], 0);
        assert(s[from] == '-');
        lemma_scan_number_formatted(s, from + 1, mag);
    } else {
        lemma_has_prefix_index(s, from, dec_chars(v as nat), 0);
        lemma_dec_chars_digits(v as nat);
        assert(is_digit_char(s[from]));
        assert(s[from] != '-');
        lemma_scan_number_formatted(s, from, v as nat);
    }
}

/// Scanning a rendered fixed-point value yields the millionths it was
/// rendered from, provided the character after it is not a digit.
pub proof fn lemma_scan_analog_formatted(s: Seq<char>, from: int, m: i64)
    requires
        has_prefix(s, from, analog_chars(m as int)),
        from + analog_chars(m as int).len() == s.len() || !is_digit_char(
            s[from + analog_chars(m as int).len()],
        ),
    ensures
        scan_analog(s, from) == Option::Some((m as int, from + analog_chars(m as int).len())),
{
    let mag = (if m < 0 {
        -(m as int)
    } else {
        m as int
    }) as nat;
    let ip = mag / 1000000;
    let frac = mag % 1000000;
    let sign: Seq<char> = if m < 0 {
        seq!['-']
    } else {
        Seq::<char>::empty()
    };
    let d0 = from + sign.len();
    lemma_dec_chars_padded_digits(frac, 6);
    assert(analog_chars(m as int) == sign + dec_chars(ip) + seq!['.'] + dec_chars_padded(frac, 6));
    assert(analog_chars(m as int).len() == sign.len() + dec_chars(ip).len() + 1 + 6);
    lemma_has_prefix_concat(s, from, sign + dec_chars(ip) + seq!['.'], dec_chars_padded(frac, 6));
    lemma_has_prefix_concat(s, from, sign + dec_chars(ip), seq!['.']);
    lemma_has_prefix_concat(s, from, sign, dec_chars(ip));
    let dot = d0 + dec_chars(ip).len();
    lemma_has_prefix_index(s, dot, seq!['.'], 0);
    assert(s[dot] == '.');
    if m < 0 {
        lemma_has_prefix_index(s, from, sign, 0);
        assert(s[from] == '-');
    } else {
        lemma_has_prefix_index(s, from, dec_chars(ip), 0);
        lemma_dec_chars_digits(ip);
        assert(is_digit_char(s[from]));
        assert(s[from] != '-');
    }
    assert(ip <= u64::MAX as nat) by {
        assert(mag <= 9223372036854775808);
    }
    lemma_scan_number_formatted(s, d0, ip);
    assert(dot + 7 == from + analog_chars(m as int).len());
    lemma_scan_padded6_formatted(s, dot + 1, frac);
    vstd::arithmetic::div_mod::lemma_fundamental_div_mod(mag as int, 1000000);
    assert(ip * 1000000 + frac == mag);
}

/// A JSON boolean.
pub open spec fn scan_bool(s: Seq<char>, at: int) -> Option<(bool, int)> {
    if has_prefix(s, at, "true"@) {
        Option::Some((true, at + "true"@.len()))
    } else if has_prefix(s, at, "false"@) {
        Option::Some((false, at + "false"@.len()))
    } else {
        Option::None
    }
}

/// The timestamp at the head of a row: seconds, a dot, exactly six
/// fractional digits, then the comma before the tag.  Yields seconds,
/// microseconds, and the index of the tag.
pub open spec fn spec_parse_time(s: Seq<char>) -> Option<(int, int, int)> {
    match scan_number(s, 0) {
        Option::None => Option::None,
        Option::Some((secs, p1)) => {
            if secs <= u64::MAX && p1 + 8 <= s.len() && s[p1] == '.' && digit_run_end(s, p1 + 1)
                == p1 + 7 && s[p1 + 7] == ',' {
                Option::Some((secs, run_value(s, p1 + 1, p1 + 7), p1 + 8))
            } else {
                Option::None
            }
        },
    }
}

/// The shape of a row's payload, as named by its tag.
#[derive(Debug, Clone, Copy, PartialEq, Eq, Structural)]
pub enum RowKind {
    Start,
    End,
    MouseMove,
    MouseButton,
    Scroll,
    Keyboard,
    GamepadButton,
    GamepadButtonValue,
    GamepadAxis,
}

/// The tag text of each row kind.
pub open spec fn kind_tag_chars(k: RowKind) -> Seq<char> {
    match k {
        RowKind::Start => "START"@,
        RowKind::End => "END"@,
        RowKind::MouseMove => "MOUSE_MOVE"@,
        RowKind::MouseButton => "MOUSE_BUTTON"@,
        RowKind::Scroll => "SCROLL"@,
        RowKind::Keyboard => "KEYBOARD"@,
        RowKind::GamepadButton => "GAMEPAD_BUTTON"@,
        RowKind::GamepadButtonValue => "GAMEPAD_BUTTON_VALUE"@,
        RowKind::GamepadAxis => "GAMEPAD_AXIS"@,
    }
}

/// Whether row kind `k`'s tag sits at `t0`, followed by the comma,
/// quote and bracket that open its payload.
pub open spec fn kind_at(s: Seq<char>, t0: int, k: RowKind) -> bool {
    has_prefix(s, t0, kind_tag_chars(k) + ",\"["@)
}

/// The row kind whose tag sits at `t0`.  At most one can: each tag is
/// followed by a comma, and no tag is a comma-terminated prefix of
/// another.
pub open spec fn spec_tag_lookup(s: Seq<char>, t0: int) -> Option<RowKind> {
    if kind_at(s, t0, RowKind::Start) {
        Option::Some(RowKind::Start)
    } else if kind_at(s, t0, RowKind::End) {
        Option::Some(RowKind::End)
    } else if kind_at(s, t0, RowKind::MouseMove) {
        Option::Some(RowKind::MouseMove)
    } else if kind_at(s, t0, RowKind::MouseButton) {
        Option::Some(RowKind::MouseButton)
    } else if kind_at(s, t0, RowKind::Scroll) {
        Option::Some(RowKind::Scroll)
    } else if kind_at(s, t0, RowKind::Keyboard) {
        Option::Some(RowKind::Keyboard)
    } else if kind_at(s, t0, RowKind::GamepadButtonValue) {
        Option::Some(RowKind::GamepadButtonValue)
    } else if kind_at(s, t0, RowKind::GamepadButton) {
        Option::Some(RowKind::GamepadButton)
    } else if kind_at(s, t0, RowKind::GamepadAxis) {
        Option::Some(RowKind::GamepadAxis)
    } else {
        Option::None
    }
}

/// `<code>,<bool>` for the digital press payloads.
pub open spec fn spec_parse_press(s: Seq<char>, q: int) -> Option<(u16, bool, int)> {
    match scan_number(s, q) {
        Option::None => Option::None,
        Option::Some((code, e1)) => {
            if code <= u16::MAX && e1 < s.len() && s[e1] == ',' {
                match scan_bool(s, e1 + 1) {
                    Option::None => Option::None,
                    Option::Some((down, e2)) => Option::Some((code as u16, down, e2)),
                }
            } else {
                Option::None
            }
        },
    }
}

/// `<code>,<fixed-point value>` for the analog change payloads.
pub open spec fn spec_parse_value(s: Seq<char>, q: int) -> Option<(u16, i64, int)> {
    match scan_number(s, q) {
        Option::None => Option::None,
        Option::Some((code, e1)) => {
            if code <= u16::MAX && e1 < s.len() && s[e1] == ',' {
                match scan_analog(s, e1 + 1) {
                    Option::None => Option::None,
                    Option::Some((v, e2)) => Option::Some((code as u16, v as i64, e2)),
                }
            } else {
                Option::None
            }
        },
    }
}

/// The payload of row kind `k` starting at `q`: the parsed event and
/// the index of the closing bracket.
pub open spec fn spec_parse_payload(s: Seq<char>, q: int, k: RowKind) -> Option<(LogEvent, int)> {
    match k {
        RowKind::Start => Option::Some((LogEvent::Start, q)),
        RowKind::End => Option::Some((LogEvent::End, q)),
        RowKind::MouseMove => match scan_int(s, q, i32::MIN as int, i32::MAX as int) {
            Option::None => Option::None,
            Option::Some((dx, e1)) => {
                if e1 < s.len() && s[e1] == ',' {
                    match scan_int(s, e1 + 1, i32::MIN as int, i32::MAX as int) {
                        Option::None => Option::None,
                        Option::Some((dy, e2)) => Option::Some(
                            (LogEvent::Input(Event::MouseMove { dx: dx as i32, dy: dy as i32 }), e2),
                        ),
                    }
                } else {
                    Option::None
                }
            },
        },
        RowKind::Scroll => match scan_int(s, q, i16::MIN as int, i16::MAX as int) {
            Option::None => Option::None,
            Option::Some((amt, e1)) => Option::Some(
                (LogEvent::Input(Event::MouseScroll { scroll_amount: amt as i16 }), e1),
            ),
        },
        RowKind::MouseButton => match spec_parse_press(s, q) {
            Option::None => Option::None,
            Option::Some((code, down, e)) => Option::Some(
                (
                    LogEvent::Input(
                        Event::MousePress { key: code, press_state: press_of(down) },
                    ),
                    e,
                ),
            ),
        },
        RowKind::Keyboard => match spec_parse_press(s, q) {
            Option::None => Option::None,
            Option::Some((code, down, e)) => Option::Some(
                (LogEvent::Input(Event::KeyPress { key: code, press_state: press_of(down) }), e),
            ),
        },
        RowKind::GamepadButton => match spec_parse_press(s, q) {
            Option::None => Option::None,
            Option::Some((code, down, e)) => Option::Some(
                (
                    LogEvent::Input(
                        Event::GamepadButtonPress { key: code, press_state: press_of(down) },
                    ),
                    e,
                ),
            ),
        },
        RowKind::GamepadButtonValue => match spec_parse_value(s, q) {
            Option::None => Option::None,
            Option::Some((code, v, e)) => Option::Some(
                (
                    LogEvent::Input(
                        Event::GamepadButtonChange { key: code, value: AnalogValue { micros: v } },
                    ),
                    e,
                ),
            ),
        },
        RowKind::GamepadAxis => match spec_parse_value(s, q) {
            Option::None => Option::None,
            Option::Some((code, v, e)) => Option::Some(
                (
                    LogEvent::Input(
                        Event::GamepadAxisChange { axis: code, value: AnalogValue { micros: v } },
                    ),
                    e,
                ),
            ),
        },
    }
}

/// The press state a JSON boolean stands for.
pub open spec fn press_of(down: bool) -> PressState {
    if down {
        PressState::Pressed
    } else {
        PressState::Released
    }
}

/// A row ends with the payload's closing bracket, the closing quote and
/// a newline, and nothing after them.
pub open spec fn row_tail_at(s: Seq<char>, e: int) -> bool {
    e + 3 == s.len() && s[e] == ']' && s[e + 1] == '"' && s[e + 2] == '\n'
}

/// The specification-level row parser: the unique record whose
/// rendering is `s`, if `s` is a well-formed row.
pub open spec fn spec_parse_row(s: Seq<char>) -> Option<ParsedRow> {
    match spec_parse_time(s) {
        Option::None => Option::None,
        Option::Some((secs, micros, t0)) => match spec_tag_lookup(s, t0) {
            Option::None => Option::None,
            Option::Some(k) => {
                let q = t0 + kind_tag_chars(k).len() + 3;
                match spec_parse_payload(s, q, k) {
                    Option::None => Option::None,
                    Option::Some((ev, e)) => {
                        if row_tail_at(s, e) {
                            Option::Some(
                                ParsedRow { secs: secs as u64, micros: micros as u32, event: ev },
                            )
                        } else {
                            Option::None
                        }
                    },
                }
            },
        },
    }
}

/// The payload shape of each row the writer emits.
pub open spec fn kind_of(ev: LogEvent) -> RowKind {
    match ev {
        LogEvent::Start => RowKind::Start,
        LogEvent::End => RowKind::End,
        LogEvent::Input(e) => match e {
            Event::MouseMove { .. } => RowKind::MouseMove,
            Event::MousePress { .. } => RowKind::MouseButton,
            Event::MouseScroll { .. } => RowKind::Scroll,
            Event::KeyPress { .. } => RowKind::Keyboard,
            Event::GamepadButtonPress { .. } => RowKind::GamepadButton,
            Event::GamepadButtonChange { .. } => RowKind::GamepadButtonValue,
            Event::GamepadAxisChange { .. } => RowKind::GamepadAxis,
        },
    }
}

/// A tag held at `t0` rules out any other tag whose opening characters
/// differ at the witness index `w`.
proof fn lemma_not_kind_at(s: Seq<char>, t0: int, actual: RowKind, other: RowKind, w: int)
    requires
        kind_at(s, t0, actual),
        0 <= w < kind_tag_chars(actual).len() + 3,
        0 <= w < kind_tag_chars(other).len() + 3,
        (kind_tag_chars(actual) + ",\"["@)[w] != (kind_tag_chars(other) + ",\"["@)[w],
    ensures
        !kind_at(s, t0, other),
{
    reveal_strlit(",\"[");
    if kind_at(s, t0, other) {
        lemma_has_prefix_index(s, t0, kind_tag_chars(actual) + ",\"["@, w);
        lemma_has_prefix_index(s, t0, kind_tag_chars(other) + ",\"["@, w);
    }
}

/// Looking a tag up at its own position finds exactly the kind whose
/// tag was written there.
proof fn lemma_tag_lookup_formatted(s: Seq<char>, t0: int, k: RowKind)
    requires
        kind_at(s, t0, k),
    ensures
        spec_tag_lookup(s, t0) == Option::Some(k),
{
    reveal_strlit("START");
    reveal_strlit("END");
    reveal_strlit("MOUSE_MOVE");
    reveal_strlit("MOUSE_BUTTON");
    reveal_strlit("SCROLL");
    reveal_strlit("KEYBOARD");
    reveal_strlit("GAMEPAD_BUTTON");
    reveal_strlit("GAMEPAD_BUTTON_VALUE");
    reveal_strlit("GAMEPAD_AXIS");
    reveal_strlit(",\"[");
    match k {
        RowKind::Start => {},
        RowKind::End => {
            lemma_not_kind_at(s, t0, k, RowKind::Start, 3);
        },
        RowKind::MouseMove => {
            lemma_not_kind_at(s, t0, k, RowKind::Start, 5);
            lemma_not_kind_at(s, t0, k, RowKind::End, 3);
        },
        RowKind::MouseButton => {
            lemma_not_kind_at(s, t0, k, RowKind::Start, 5);
            lemma_not_kind_at(s, t0, k, RowKind::End, 3);
            lemma_not_kind_at(s, t0, k, RowKind::MouseMove, 10);
        },
        RowKind::Scroll => {
            lemma_not_kind_at(s, t0, k, RowKind::Start, 5);
            lemma_not_kind_at(s, t0, k, RowKind::End, 3);
            lemma_not_kind_at(s, t0, k, RowKind::MouseMove, 6);
            lemma_not_kind_at(s, t0, k, RowKind::MouseButton, 6);
        },
        RowKind::Keyboard => {
            lemma_not_kind_at(s, t0, k, RowKind::Start, 5);
            lemma_not_kind_at(s, t0, k, RowKind::End, 3);
            lemma_not_kind_at(s, t0, k, RowKind::MouseMove, 8);
            lemma_not_kind_at(s, t0, k, RowKind::MouseButton, 8);
            lemma_not_kind_at(s, t0, k, RowKind::Scroll, 6);
        },
        RowKind::GamepadButtonValue => {
            lemma_not_kind_at(s, t0, k, RowKind::Start, 5);
            lemma_not_kind_at(s, t0, k, RowKind::End, 3);
            lemma_not_kind_at(s, t0, k, RowKind::MouseMove, 10);
            lemma_not_kind_at(s, t0, k, RowKind::MouseButton, 12);
            lemma_not_kind_at(s, t0, k, RowKind::Scroll, 6);
            lemma_not_kind_at(s, t0, k, RowKind::Keyboard, 8);
        },
        RowKind::GamepadButton => {
            lemma_not_kind_at(s, t0, k, RowKind::Start, 5);
            lemma_not_kind_at(s, t0, k, RowKind::End, 3);
            lemma_not_kind_at(s, t0, k, RowKind::MouseMove, 10);
            lemma_not_kind_at(s, t0, k, RowKind::MouseButton, 12);
            lemma_not_kind_at(s, t0, k, RowKind::Scroll, 6);
            lemma_not_kind_at(s, t0, k, RowKind::Keyboard, 8);
            lemma_not_kind_at(s, t0, k, RowKind::GamepadButtonValue, 14);
        },
        RowKind::GamepadAxis => {
            lemma_not_kind_at(s, t0, k, RowKind::Start, 5);
            lemma_not_kind_at(s, t0, k, RowKind::End, 3);
            lemma_not_kind_at(s, t0, k, RowKind::MouseMove, 10);
            lemma_not_kind_at(s, t0, k, RowKind::MouseButton, 0);
            lemma_not_kind_at(s, t0, k, RowKind::Scroll, 6);
            lemma_not_kind_at(s, t0, k, RowKind::Keyboard, 8);
            lemma_not_kind_at(s, t0, k, RowKind::GamepadButtonValue, 12);
            lemma_not_kind_at(s, t0, k, RowKind::GamepadButton, 12);
        },
    }
}

/// Parsing a rendered `<code>,<bool>` payload yields the code and
/// state it was rendered from.
proof fn lemma_parse_press_formatted(s: Seq<char>, q: int, key: u16, down: bool)
    requires
        has_prefix(s, q, dec_chars(key as nat) + ","@ + crate::input_log::bool_chars(down)),
    ensures
        spec_parse_press(s, q) == Option::Some(
            (
                key,
                down,
                q + dec_chars(key as nat).len() + 1 + crate::input_log::bool_chars(down).len(),
            ),
        ),
{
    reveal_strlit(",");
    reveal_strlit("true");
    reveal_strlit("false");
    let d = dec_chars(key as nat);
    let b = crate::input_log::bool_chars(down);
    lemma_has_prefix_concat(s, q, d + ","@, b);
    lemma_has_prefix_concat(s, q, d, ","@);
    let e1 = q + d.len();
    lemma_has_prefix_index(s, e1, ","@, 0);
    assert(s[e1] == ',');
    lemma_scan_number_formatted(s, q, key as nat);
    if down {
        assert(has_prefix(s, e1 + 1, "true"@));
    } else {
        assert(has_prefix(s, e1 + 1, "false"@));
        if has_prefix(s, e1 + 1, "true"@) {
            lemma_has_prefix_index(s, e1 + 1, "true"@, 0);
            lemma_has_prefix_index(s, e1 + 1, "false"@, 0);
            assert(false);
        }
    }
}

/// Parsing a rendered `<code>,<fixed-point>` payload yields the code
/// and millionths it was rendered from, provided the character after it
/// is not a digit.
proof fn lemma_parse_value_formatted(s: Seq<char>, q: int, key: u16, m: i64)
    requires
        has_prefix(s, q, dec_chars(key as nat) + ","@ + analog_chars(m as int)),
        q + dec_chars(key as nat).len() + 1 + analog_chars(m as int).len() == s.len()
            || !is_digit_char(
            s[q + dec_chars(key as nat).len() + 1 + analog_chars(m as int).len()],
        ),
    ensures
        spec_parse_value(s, q) == Option::Some(
            (key, m, q + dec_chars(key as nat).len() + 1 + analog_chars(m as int).len()),
        ),
{
    reveal_strlit(",");
    let d = dec_chars(key as nat);
    let a = analog_chars(m as int);
    lemma_has_prefix_concat(s, q, d + ","@, a);
    lemma_has_prefix_concat(s, q, d, ","@);
    let e1 = q + d.len();
    lemma_has_prefix_index(s, e1, ","@, 0);
    assert(s[e1] == ',');
    lemma_scan_number_formatted(s, q, key as nat);
    lemma_scan_analog_formatted(s, e1 + 1, m);
}

/// Parsing a rendered `<dx>,<dy>` payload yields the deltas it was
/// rendered from, provided the character after it is not a digit.
proof fn lemma_parse_move_formatted(s: Seq<char>, q: int, dx: i32, dy: i32)
    requires
        has_prefix(s, q, int_chars(dx as int) + ","@ + int_chars(dy as int)),
        q + int_chars(dx as int).len() + 1 + int_chars(dy as int).len() == s.len()
            || !is_digit_char(
            s[q + int_chars(dx as int).len() + 1 + int_chars(dy as int).len()],
        ),
    ensures
        spec_parse_payload(s, q, RowKind::MouseMove) == Option::Some(
            (
                LogEvent::Input(Event::MouseMove { dx, dy }),
                q + int_chars(dx as int).len() + 1 + int_chars(dy as int).len(),
            ),
        ),
{
    reveal_strlit(",");
    let a = int_chars(dx as int);
    let b = int_chars(dy as int);
    lemma_has_prefix_concat(s, q, a + ","@, b);
    lemma_has_prefix_concat(s, q, a, ","@);
    let e1 = q + a.len();
    lemma_has_prefix_index(s, e1, ","@, 0);
    assert(s[e1] == ',');
    assert(s[e1] != '-' && !is_digit_char(s[e1]));
    lemma_scan_int_formatted(s, q, dx as int, i32::MIN as int, i32::MAX as int);
    lemma_scan_int_formatted(s, e1 + 1, dy as int, i32::MIN as int, i32::MAX as int);
}

/// Parsing a rendered row yields exactly the record it was rendered
/// from: the log format round-trips.
#[verifier::rlimit(100)]
pub proof fn lemma_row_round_trip(secs: u64, micros: u32, ev: LogEvent)
    requires
        micros < 1_000_000,
    ensures
        spec_parse_row(crate::input_log::row_chars(secs as nat, micros as nat, ev))
            == Option::Some(ParsedRow { secs, micros, event: ev }),
{
    reveal_strlit(".");
    reveal_strlit(",");
    reveal_strlit("\"");
    reveal_strlit("[");
    reveal_strlit("]");
    reveal_strlit("\n");
    reveal_strlit(",\"[");
    let s = crate::input_log::row_chars(secs as nat, micros as nat, ev);
    let a = dec_chars(secs as nat);
    let p = dec_chars_padded(micros as nat, 6);
    let t = crate::input_log::tag_chars(ev);
    let pay = crate::input_log::payload_chars(ev);
    crate::numfmt::lemma_dec_chars_padded_digits(micros as nat, 6);
    // Peel the row into its pieces, outermost last piece first.
    let a1 = a + "."@;
    let a2 = a1 + p;
    let a3 = a2 + ","@;
    let a4 = a3 + t;
    let a5 = a4 + ","@;
    let a6 = a5 + "\""@;
    let a7 = a6 + "["@;
    let a8 = a7 + pay;
    let a9 = a8 + "]"@;
    let a10 = a9 + "\""@;
    assert(s == a10 + "\n"@);
    assert(s.subrange(0, s.len() as int) =~= s);
    assert(has_prefix(s, 0, a10 + "\n"@));
    lemma_has_prefix_concat(s, 0, a10, "\n"@);
    lemma_has_prefix_concat(s, 0, a9, "\""@);
    lemma_has_prefix_concat(s, 0, a8, "]"@);
    lemma_has_prefix_concat(s, 0, a7, pay);
    lemma_has_prefix_concat(s, 0, a6, "["@);
    lemma_has_prefix_concat(s, 0, a5, "\""@);
    lemma_has_prefix_concat(s, 0, a4, ","@);
    lemma_has_prefix_concat(s, 0, a3, t);
    lemma_has_prefix_concat(s, 0, a2, ","@);
    lemma_has_prefix_concat(s, 0, a1, p);
    lemma_has_prefix_concat(s, 0, a, "."@);
    // The timestamp.
    let l0 = a.len() as int;
    lemma_has_prefix_index(s, l0, "."@, 0);
    assert(s[l0] == '.');
    lemma_scan_number_formatted(s, 0, secs as nat);
    lemma_has_prefix_index(s, l0 + 7, ","@, 0);
    assert(s[l0 + 7] == ',');
    lemma_scan_padded6_formatted(s, l0 + 1, micros as nat);
    assert(spec_parse_time(s) == Option::Some((secs as int, micros as int, l0 + 8)));
    // The tag.
    let t0 = l0 + 8;
    let tl = t.len() as int;
    assert(",\"["@ =~= ","@ + "\""@ + "["@);
    lemma_has_prefix_concat(s, t0 + tl, ","@ + "\""@, "["@);
    lemma_has_prefix_concat(s, t0 + tl, ","@, "\""@);
    assert(has_prefix(s, t0 + tl, ","@ + "\""@ + "["@));
    lemma_has_prefix_concat(s, t0, t, ",\"["@);
    assert(kind_tag_chars(kind_of(ev)) == t);
    assert(kind_at(s, t0, kind_of(ev)));
    lemma_tag_lookup_formatted(s, t0, kind_of(ev));
    // The payload.
    let q = t0 + tl + 3;
    let e = q + pay.len() as int;
    lemma_has_prefix_index(s, e, "]"@, 0);
    assert(s[e] == ']');
    lemma_has_prefix_index(s, e + 1, "\""@, 0);
    assert(s[e + 1] == '"');
    lemma_has_prefix_index(s, e + 2, "\n"@, 0);
    assert(s[e + 2] == '\n');
    assert(e + 3 == s.len());
    assert(row_tail_at(s, e));
    match ev {
        LogEvent::Start => {
            assert(pay.len() == 0);
            assert(spec_parse_payload(s, q, RowKind::Start) == Option::Some((LogEvent::Start, q)));
        },
        LogEvent::End => {
            assert(pay.len() == 0);
            assert(spec_parse_payload(s, q, RowKind::End) == Option::Some((LogEvent::End, q)));
        },
        LogEvent::Input(inner) => match inner {
            Event::MouseMove { dx, dy } => {
                lemma_parse_move_formatted(s, q, dx, dy);
            },
            Event::MousePress { key, press_state } => {
                lemma_parse_press_formatted(s, q, key, press_state is Pressed);
                assert(press_of(press_state is Pressed) == press_state);
            },
            Event::MouseScroll { scroll_amount } => {
                lemma_scan_int_formatted(s, q, scroll_amount as int, i16::MIN as int, i16::MAX as int);
            },
            Event::KeyPress { key, press_state } => {
                lemma_parse_press_formatted(s, q, key, press_state is Pressed);
                assert(press_of(press_state is Pressed) == press_state);
            },
            Event::GamepadButtonPress { key, press_state } => {
                lemma_parse_press_formatted(s, q, key, press_state is Pressed);
                assert(press_of(press_state is Pressed) == press_state);
            },
            Event::GamepadButtonChange { key, value } => {
                lemma_parse_value_formatted(s, q, key, value.micros);
            },
            Event::GamepadAxisChange { axis, value } => {
                lemma_parse_value_formatted(s, q, axis, value.micros);
            },
        },
    }
}

/// Powers of ten grow with the exponent.
proof fn lemma_pow10_mono(a: nat, b: nat)
    requires
        a <= b,
    ensures
        pow10(a) <= pow10(b),
    decreases b,
{
    if a < b {
        lemma_pow10_mono(a, (b - 1) as nat);
        lemma_pow10_pos((b - 1) as nat);
    }
}

/// Whether `c` is an ASCII decimal digit.
fn is_digit_exec(c: char) -> (r: bool)
    ensures
        r == is_digit_char(c),
{
    let u = c as u32;
    48 <= u && u <= 57
}

/// End of the run of digit characters starting at `from`.
fn digit_run_end_exec(row: &str, from: usize) -> (e: usize)
    requires
        from <= row@.len(),
    ensures
        e == digit_run_end(row@, from as int),
        from <= e <= row@.len(),
{
    let n = row.unicode_len();
    let mut i: usize = from;
    while i < n && is_digit_exec(row.get_char(i))
        invariant
            from <= i <= n == row@.len(),
            digit_run_end(row@, from as int) == digit_run_end(row@, i as int),
        decreases n - i,
    {
        i = i + 1;
    }
    i
}

/// Whether `row` holds `pre` starting at `at`.
fn has_prefix_exec(row: &str, at: usize, pre: &str) -> (r: bool)
    requires
        at <= row@.len(),
    ensures
        r == has_prefix(row@, at as int, pre@),
{
    let n = row.unicode_len();
    let m = pre.unicode_len();
    if m > n - at {
        return false;
    }
    let mut i: usize = 0;
    while i < m
        invariant
            0 <= i <= m,
            m == pre@.len(),
            at + m <= n == row@.len(),
            forall|j: int| 0 <= j < i ==> row@[at + j] == pre@[j],
        decreases m - i,
    {
        if row.get_char(at + i) != pre.get_char(i) {
            proof {
                if has_prefix(row@, at as int, pre@) {
                    lemma_has_prefix_index(row@, at as int, pre@, i as int);
                }
            }
            return false;
        }
        i = i + 1;
    }
    proof {
        assert(row@.subrange(at as int, at + pre@.len()) =~= pre@);
    }
    true
}

/// Reads six digit characters as a value below one million.
fn read6(row: &str, p: usize) -> (v: u32)
    requires
        row@.len() <= usize::MAX,
        p + 6 <= row@.len(),
        forall|j: int| p <= j < p + 6 ==> is_digit_char(#[trigger] row@[j]),
    ensures
        v == run_value(row@, p as int, p as int + 6),
        v < 1_000_000,
{
    let mut j: usize = 0;
    let mut acc: u32 = 0;
    while j < 6
        invariant
            0 <= j <= 6,
            row@.len() <= usize::MAX,
            p + 6 <= row@.len(),
            forall|i: int| p <= i < p + 6 ==> is_digit_char(#[trigger] row@[i]),
            acc == run_value(row@, p as int, p as int + j),
            acc < pow10(j as nat),
        decreases 6 - j,
    {
        let c = row.get_char(p + j);
        let d = (c as u32) - 48;
        proof {
            reveal_with_fuel(pow10, 8);
        }
        acc = acc * 10 + d;
        j = j + 1;
        proof {
            crate::numfmt::lemma_run_value_bound(row@, p as int, p as int + j);
        }
    }
    proof {
        reveal_with_fuel(pow10, 8);
        crate::numfmt::lemma_run_value_bound(row@, p as int, p as int + 6);
    }
    acc
}

/// Scans a number as [`scan_number`] accepts one.
fn scan_number_exec(row: &str, from: usize) -> (r: Option<(u128, usize)>)
    requires
        from <= row@.len(),
    ensures
        match r {
            Option::Some(p) => scan_number(row@, from as int) == Option::Some(
                (p.0 as int, p.1 as int),
            ) && from < p.1 <= row@.len() && p.0 < 100_000_000_000_000_000_000u128,
            Option::None => scan_number(row@, from as int) is None,
        },
{
    let end = digit_run_end_exec(row, from);
    proof {
        lemma_digit_run_end_props(row@, from as int);
    }
    if end == from {
        return Option::None;
    }
    if row.get_char(from) == '0' && end - from > 1 {
        return Option::None;
    }
    if end - from > 20 {
        return Option::None;
    }
    let mut i: usize = from;
    let mut acc: u128 = 0;
    while i < end
        invariant
            from <= i <= end <= row@.len(),
            end - from <= 20,
            forall|j: int| from <= j < end ==> is_digit_char(#[trigger] row@[j]),
            acc == run_value(row@, from as int, i as int),
            acc < pow10((i - from) as nat),
        decreases end - i,
    {
        let c = row.get_char(i);
        let d = (c as u32) - 48;
        proof {
            lemma_pow10_mono((i - from) as nat, 19);
            reveal_with_fuel(pow10, 21);
        }
        acc = acc * 10 + (d as u128);
        i = i + 1;
        proof {
            crate::numfmt::lemma_run_value_bound(row@, from as int, i as int);
        }
    }
    proof {
        lemma_pow10_mono((end - from) as nat, 20);
        reveal_with_fuel(pow10, 21);
    }
    Option::Some((acc, end))
}

/// Scans a bounded signed integer as [`scan_int`] accepts one.
fn scan_int_exec(row: &str, from: usize, lo: i64, hi: i64) -> (r: Option<(i64, usize)>)
    requires
        from <= row@.len(),
    ensures
        match r {
            Option::Some(p) => scan_int(row@, from as int, lo as int, hi as int) == Option::Some(
                (p.0 as int, p.1 as int),
            ) && p.1 <= row@.len(),
            Option::None => scan_int(row@, from as int, lo as int, hi as int) is None,
        },
{
    let n = row.unicode_len();
    let neg = from < n && row.get_char(from) == '-';
    let d0 = if neg {
        from + 1
    } else {
        from
    };
    match scan_number_exec(row, d0) {
        Option::None => Option::None,
        Option::Some((v0, end)) => {
            let v: i128 = if neg {
                -(v0 as i128)
            } else {
                v0 as i128
            };
            if (lo as i128) <= v && v <= (hi as i128) {
                Option::Some((v as i64, end))
            } else {
                Option::None
            }
        },
    }
}

/// Scans a JSON boolean as [`scan_bool`] accepts one.
fn scan_bool_exec(row: &str, at: usize) -> (r: Option<(bool, usize)>)
    requires
        row@.len() <= usize::MAX,
        at <= row@.len(),
    ensures
        match r {
            Option::Some(p) => scan_bool(row@, at as int) == Option::Some((p.0, p.1 as int))
                && p.1 <= row@.len(),
            Option::None => scan_bool(row@, at as int) is None,
        },
{
    proof {
        reveal_strlit("true");
        reveal_strlit("false");
    }
    if has_prefix_exec(row, at, "true") {
        Option::Some((true, at + 4))
    } else if has_prefix_exec(row, at, "false") {
        Option::Some((false, at + 5))
    } else {
        Option::None
    }
}

/// Scans a fixed-point value as [`scan_analog`] accepts one.
fn scan_analog_exec(row: &str, from: usize) -> (r: Option<(i64, usize)>)
    requires
        from <= row@.len(),
    ensures
        match r {
            Option::Some(p) => scan_analog(row@, from as int) == Option::Some(
                (p.0 as int, p.1 as int),
            ) && p.1 <= row@.len(),
            Option::None => scan_analog(row@, from as int) is None,
        },
{
    let n = row.unicode_len();
    let neg = from < n && row.get_char(from) == '-';
    let d0 = if neg {
        from + 1
    } else {
        from
    };
    match scan_number_exec(row, d0) {
        Option::None => Option::None,
        Option::Some((ip, dot)) => {
            if dot < n && row.get_char(dot) == '.' && n - dot >= 7 {
                let fe = digit_run_end_exec(row, dot + 1);
                if fe == dot + 7 {
                    proof {
                        lemma_digit_run_end_props(row@, dot as int + 1);
                    }
                    let frac = read6(row, dot + 1);
                    let mag: i128 = (ip as i128) * 1_000_000 + (frac as i128);
                    let v: i128 = if neg {
                        -mag
                    } else {
                        mag
                    };
                    if (i64::MIN as i128) <= v && v <= (i64::MAX as i128) {
                        Option::Some((v as i64, dot + 7))
                    } else {
                        Option::None
                    }
                } else {
                    Option::None
                }
            } else {
                Option::None
            }
        },
    }
}

/// Whether a row kind's tag, with the comma, quote and bracket that
/// open its payload, sits at `t0`.
fn tag_here(row: &str, t0: usize, tag: &str) -> (r: bool)
    requires
        t0 <= row@.len(),
    ensures
        r == has_prefix(row@, t0 as int, tag@ + ",\"["@),
{
    let n = row.unicode_len();
    let tl = tag.unicode_len();
    let r1 = has_prefix_exec(row, t0, tag);
    proof {
        lemma_has_prefix_concat(row@, t0 as int, tag@, ",\"["@);
    }
    if !r1 {
        return false;
    }
    has_prefix_exec(row, t0 + tl, ",\"[")
}

/// Parses one log row.  The result is exactly what the
/// specification-level parser accepts: the unique record whose
/// rendering is `row`, or `None` for anything the log writer could not
/// have emitted.
#[verifier::rlimit(100)]
pub fn parse_row(row: &str) -> (r: Option<ParsedRow>)
    ensures
        r == spec_parse_row(row@),
{
    proof {
        reveal_strlit(".");
        reveal_strlit(",");
        reveal_strlit(",\"[");
        reveal_strlit("START");
        reveal_strlit("END");
        reveal_strlit("MOUSE_MOVE");
        reveal_strlit("MOUSE_BUTTON");
        reveal_strlit("SCROLL");
        reveal_strlit("KEYBOARD");
        reveal_strlit("GAMEPAD_BUTTON");
        reveal_strlit("GAMEPAD_BUTTON_VALUE");
        reveal_strlit("GAMEPAD_AXIS");
    }
    let n = row.unicode_len();
    // The timestamp.
    let scanned = scan_number_exec(row, 0);
    if scanned.is_none() {
        return Option::None;
    }
    let (secs128, p1) = scanned.unwrap();
    if secs128 > u64::MAX as u128 {
        return Option::None;
    }
    if n < 8 || p1 > n - 8 {
        return Option::None;
    }
    if row.get_char(p1) != '.' {
        return Option::None;
    }
    let fe = digit_run_end_exec(row, p1 + 1);
    if fe != p1 + 7 {
        return Option::None;
    }
    if row.get_char(p1 + 7) != ',' {
        return Option::None;
    }
    proof {
        lemma_digit_run_end_props(row@, p1 as int + 1);
    }
    let micros = read6(row, p1 + 1);
    let secs = secs128 as u64;
    let t0 = p1 + 8;
    assert(spec_parse_time(row@) == Option::Some((secs as int, micros as int, t0 as int)));
    // The tag.
    let kind: RowKind = if tag_here(row, t0, "START") {
        RowKind::Start
    } else if tag_here(row, t0, "END") {
        RowKind::End
    } else if tag_here(row, t0, "MOUSE_MOVE") {
        RowKind::MouseMove
    } else if tag_here(row, t0, "MOUSE_BUTTON") {
        RowKind::MouseButton
    } else if tag_here(row, t0, "SCROLL") {
        RowKind::Scroll
    } else if tag_here(row, t0, "KEYBOARD") {
        RowKind::Keyboard
    } else if tag_here(row, t0, "GAMEPAD_BUTTON_VALUE") {
        RowKind::GamepadButtonValue
    } else if tag_here(row, t0, "GAMEPAD_BUTTON") {
        RowKind::GamepadButton
    } else if tag_here(row, t0, "GAMEPAD_AXIS") {
        RowKind::GamepadAxis
    } else {
        assert(spec_tag_lookup(row@, t0 as int) is None);
        return Option::None;
    };
    assert(spec_tag_lookup(row@, t0 as int) == Option::Some(kind));
    let tl: usize = match kind {
        RowKind::Start => 5,
        RowKind::End => 3,
        RowKind::MouseMove => 10,
        RowKind::MouseButton => 12,
        RowKind::Scroll => 6,
        RowKind::Keyboard => 8,
        RowKind::GamepadButton => 14,
        RowKind::GamepadButtonValue => 20,
        RowKind::GamepadAxis => 12,
    };
    assert(tl == kind_tag_chars(kind).len());
    assert(kind_at(row@, t0 as int, kind));
    assert(t0 + tl + 3 <= row@.len());
    let q = t0 + tl + 3;
    // The payload.
    let parsed: Option<(LogEvent, usize)> = match kind {
        RowKind::Start => Option::Some((LogEvent::Start, q)),
        RowKind::End => Option::Some((LogEvent::End, q)),
        RowKind::MouseMove => {
            match scan_int_exec(row, q, i32::MIN as i64, i32::MAX as i64) {
                Option::None => Option::None,
                Option::Some((dx, e1)) => {
                    if e1 < n && row.get_char(e1) == ',' {
                        match scan_int_exec(row, e1 + 1, i32::MIN as i64, i32::MAX as i64) {
                            Option::None => Option::None,
                            Option::Some((dy, e2)) => Option::Some(
                                (
                                    LogEvent::Input(
                                        Event::MouseMove { dx: dx as i32, dy: dy as i32 },
                                    ),
                                    e2,
                                ),
                            ),
                        }
                    } else {
                        Option::None
                    }
                }
            }
        },
        RowKind::Scroll => {
            match scan_int_exec(row, q, i16::MIN as i64, i16::MAX as i64) {
                Option::None => Option::None,
                Option::Some((amt, e1)) => Option::Some(
                    (LogEvent::Input(Event::MouseScroll { scroll_amount: amt as i16 }), e1),
                ),
            }
        },
        RowKind::MouseButton | RowKind::Keyboard | RowKind::GamepadButton => {
            match scan_number_exec(row, q) {
                Option::None => Option::None,
                Option::Some((code, e1)) => {
                    if code <= u16::MAX as u128 && e1 < n && row.get_char(e1) == ',' {
                        match scan_bool_exec(row, e1 + 1) {
                            Option::None => Option::None,
                            Option::Some((down, e2)) => {
                                let state = if down {
                                    PressState::Pressed
                                } else {
                                    PressState::Released
                                };
                                let ev = match kind {
                                    RowKind::Keyboard => Event::KeyPress {
                                        key: code as u16,
                                        press_state: state,
                                    },
                                    RowKind::GamepadButton => Event::GamepadButtonPress {
                                        key: code as u16,
                                        press_state: state,
                                    },
                                    _ => Event::MousePress {
                                        key: code as u16,
                                        press_state: state,
                                    },
                                };
                                Option::Some((LogEvent::Input(ev), e2))
                            },
                        }
                    } else {
                        Option::None
                    }
                },
            }
        },
        RowKind::GamepadButtonValue | RowKind::GamepadAxis => {
            match scan_number_exec(row, q) {
                Option::None => Option::None,
                Option::Some((code, e1)) => {
                    if code <= u16::MAX as u128 && e1 < n && row.get_char(e1) == ',' {
                        match scan_analog_exec(row, e1 + 1) {
                            Option::None => Option::None,
                            Option::Some((v, e2)) => {
                                let ev = match kind {
                                    RowKind::GamepadAxis => Event::GamepadAxisChange {
                                        axis: code as u16,
                                        value: AnalogValue { micros: v },
                                    },
                                    _ => Event::GamepadButtonChange {
                                        key: code as u16,
                                        value: AnalogValue { micros: v },
                                    },
                                };
                                Option::Some((LogEvent::Input(ev), e2))
                            },
                        }
                    } else {
                        Option::None
                    }
                },
            }
        },
    };
    match parsed {
        Option::None => {
            assert(spec_parse_payload(row@, q as int, kind) is None);
            Option::None
        },
        Option::Some((ev, e)) => {
            assert(spec_parse_payload(row@, q as int, kind) == Option::Some((ev, e as int)));
            // The tail.
            if n >= 3 && e == n - 3 && row.get_char(e) == ']' && row.get_char(e + 1) == '"'
                && row.get_char(e + 2) == '\n' {
                assert(row_tail_at(row@, e as int));
                Option::Some(ParsedRow { secs, micros, event: ev })
            } else {
                assert(!row_tail_at(row@, e as int));
                Option::None
            }
        },
    }
}

} // verus!
