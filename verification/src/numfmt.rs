//! Decimal rendering of the integer and fixed-point values that appear
//! in the input log, together with the lemmas that make the rendering
//! invertible.
//!
//! All text is modelled as `Seq<char>`; rendered numbers use plain ASCII
//! digits, a leading `-` for negative values, and exactly six fractional
//! digits for fixed-point millionths.

use vstd::prelude::*;
use vstd::string::StringExecFns;

verus! {

/// The digit character for `d` in `0..10`.
pub open spec fn digit_char(d: int) -> char {
    (48 + d) as char
}

/// Whether `c` is an ASCII decimal digit.
pub open spec fn is_digit_char(c: char) -> bool {
    48 <= c as int <= 57
}

/// Numeric value of a digit character.
pub open spec fn digit_val(c: char) -> int {
    c as int - 48
}

/// Decimal rendering of `n` without leading zeros (`0` renders as `0`).
pub open spec fn dec_chars(n: nat) -> Seq<char>
    decreases n,
{
    if n < 10 {
        seq![digit_char(n as int)]
    } else {
        dec_chars(n / 10).push(digit_char((n % 10) as int))
    }
}

/// The `width` least-significant decimal digits of `n`, left-padded with
/// zeros.
pub open spec fn dec_chars_padded(n: nat, width: nat) -> Seq<char>
    decreases width,
{
    if width == 0 {
        Seq::<char>::empty()
    } else {
        dec_chars_padded(n / 10, (width - 1) as nat).push(digit_char((n % 10) as int))
    }
}

/// Decimal rendering of a signed integer.
pub open spec fn int_chars(v: int) -> Seq<char> {
    if v < 0 {
        seq!['-'] + dec_chars((-v) as nat)
    } else {
        dec_chars(v as nat)
    }
}

/// Rendering of a fixed-point value counted in millionths: sign, integer
/// part, `.`, and exactly six fractional digits.
pub open spec fn analog_chars(micros: int) -> Seq<char> {
    let mag = if micros < 0 {
        -micros
    } else {
        micros
    };
    (if micros < 0 {
        seq!['-']
    } else {
        Seq::<char>::empty()
    }) + dec_chars((mag / 1000000) as nat) + seq!['.'] + dec_chars_padded((mag % 1000000) as nat, 6)
}

/// Value of the digit characters `s[from..to]`, most significant first.
pub open spec fn run_value(s: Seq<char>, from: int, to: int) -> int
    decreases to - from,
{
    if from >= to {
        0
    } else {
        run_value(s, from, to - 1) * 10 + digit_val(s[to - 1])
    }
}

/// Every character of `dec_chars(n)` is a digit, the rendering is never
/// empty, and it is at most 20 characters for values that fit in `u64`.
pub proof fn lemma_dec_chars_digits(n: nat)
    ensures
        dec_chars(n).len() >= 1,
        forall|i: int| 0 <= i < dec_chars(n).len() ==> is_digit_char(#[trigger] dec_chars(n)[i]),
    decreases n,
{
    if n >= 10 {
        lemma_dec_chars_digits(n / 10);
    }
}

/// Every character of `dec_chars_padded(n, width)` is a digit, and the
/// rendering is exactly `width` characters.
pub proof fn lemma_dec_chars_padded_digits(n: nat, width: nat)
    ensures
        dec_chars_padded(n, width).len() == width,
        forall|i: int|
            0 <= i < width ==> is_digit_char(#[trigger] dec_chars_padded(n, width)[i]),
    decreases width,
{
    if width > 0 {
        lemma_dec_chars_padded_digits(n / 10, (width - 1) as nat);
    }
}

/// Reading back the digits of `dec_chars(n)` yields `n`.
pub proof fn lemma_dec_chars_value(n: nat)
    ensures
        run_value(dec_chars(n), 0, dec_chars(n).len() as int) == n,
    decreases n,
{
    if n < 10 {
        let s = dec_chars(n);
        assert(run_value(s, 0, 0) == 0);
        assert(run_value(s, 0, 1) == digit_val(s[0]));
        assert(digit_val(digit_char(n as int)) == n);
    } else {
        lemma_dec_chars_value(n / 10);
        let s = dec_chars(n);
        let s0 = dec_chars(n / 10);
        let l = s.len() as int;
        lemma_run_value_extend(s0, s, l - 1);
        assert(run_value(s, 0, l) == run_value(s, 0, l - 1) * 10 + digit_val(s[l - 1]));
    }
}

/// Reading back the digits of `dec_chars_padded(n, width)` yields
/// `n % 10^width`; in particular `n` itself when `n < 10^width`.
pub proof fn lemma_dec_chars_padded_value(n: nat, width: nat)
    ensures
        run_value(dec_chars_padded(n, width), 0, width as int) == n % pow10(width),
    decreases width,
{
    if width == 0 {
        assert(pow10(0) == 1);
        assert(n % 1 == 0) by (nonlinear_arith);
    } else {
        let w1 = (width - 1) as nat;
        lemma_dec_chars_padded_value(n / 10, w1);
        let s = dec_chars_padded(n, width);
        let s0 = dec_chars_padded(n / 10, w1);
        lemma_dec_chars_padded_digits(n / 10, w1);
        lemma_run_value_extend(s0, s, width as int - 1);
        assert(run_value(s, 0, width as int) == run_value(s, 0, width as int - 1) * 10 + digit_val(
            s[width as int - 1],
        ));
        lemma_pow10_pos(w1);
        vstd::arithmetic::div_mod::lemma_mod_breakdown(n as int, 10, pow10(w1) as int);
        assert(pow10(width) == 10 * pow10(w1));
    }
}

/// Powers of ten.
pub open spec fn pow10(e: nat) -> nat
    decreases e,
{
    if e == 0 {
        1
    } else {
        10 * pow10((e - 1) as nat)
    }
}

/// Powers of ten are positive.
pub proof fn lemma_pow10_pos(e: nat)
    ensures
        pow10(e) >= 1,
    decreases e,
{
    if e > 0 {
        lemma_pow10_pos((e - 1) as nat);
    }
}

/// `run_value` only looks at the characters of the run: a run equal
/// position-for-position in two sequences has the same value.
pub proof fn lemma_run_value_congruent(s1: Seq<char>, s2: Seq<char>, from: int, to: int)
    requires
        forall|i: int| from <= i < to ==> s1[i] == s2[i],
    ensures
        run_value(s1, from, to) == run_value(s2, from, to),
    decreases to - from,
{
    if from < to {
        lemma_run_value_congruent(s1, s2, from, to - 1);
    }
}

/// If `s` begins with `s0`, a run within `s0` has the same value read
/// from either sequence.
proof fn lemma_run_value_extend(s0: Seq<char>, s: Seq<char>, to: int)
    requires
        0 <= to <= s0.len() <= s.len(),
        forall|i: int| 0 <= i < s0.len() ==> s[i] == s0[i],
    ensures
        run_value(s, 0, to) == run_value(s0, 0, to),
{
    lemma_run_value_congruent(s, s0, 0, to);
}

/// A run of `w` digits has value below `10^w`, and the value is
/// non-negative.
pub proof fn lemma_run_value_bound(s: Seq<char>, from: int, to: int)
    requires
        0 <= from <= to,
        forall|i: int| from <= i < to ==> is_digit_char(#[trigger] s[i]),
    ensures
        0 <= run_value(s, from, to) < pow10((to - from) as nat),
    decreases to - from,
{
    if from >= to {
        assert(pow10(0) == 1);
    } else {
        lemma_run_value_bound(s, from, to - 1);
        let w1 = (to - 1 - from) as nat;
        assert(pow10((to - from) as nat) == 10 * pow10(w1));
        assert(run_value(s, from, to - 1) * 10 + digit_val(s[to - 1]) < 10 * pow10(w1))
            by (nonlinear_arith)
            requires
                run_value(s, from, to - 1) < pow10(w1),
                0 <= digit_val(s[to - 1]) <= 9,
        ;
    }
}

/// A run's value can be read off its subrange.
pub proof fn lemma_run_value_shift(s: Seq<char>, from: int, to: int)
    requires
        0 <= from <= to <= s.len(),
    ensures
        run_value(s, from, to) == run_value(s.subrange(from, to), 0, to - from),
    decreases to - from,
{
    if from < to {
        lemma_run_value_shift(s, from, to - 1);
        assert(s.subrange(from, to - 1) =~= s.subrange(from, to).subrange(0, to - 1 - from));
        lemma_run_value_congruent(s.subrange(from, to - 1), s.subrange(from, to), 0, to - 1 - from);
    }
}

/// `dec_chars` never renders a leading zero, except for the value zero
/// itself.
pub proof fn lemma_dec_chars_no_leading_zero(n: nat)
    ensures
        dec_chars(n).len() > 1 ==> dec_chars(n)[0] != digit_char(0),
    decreases n,
{
    if n >= 10 {
        lemma_dec_chars_no_leading_zero(n / 10);
        lemma_dec_chars_digits(n / 10);
        assert(dec_chars(n)[0] == dec_chars(n / 10)[0]);
        if n / 10 < 10 {
            assert(dec_chars(n / 10) =~= seq![digit_char((n / 10) as int)]);
            assert(1 <= n / 10 <= 9);
            assert(digit_char((n / 10) as int) as int == 48 + n / 10);
            assert(digit_char(0) as int == 48);
        } else {
            lemma_dec_chars_digits(n / 10 / 10);
            assert(dec_chars(n / 10).len() > 1);
        }
    }
}

/// A value below `10^w` renders in at most `w` digits (for `w >= 1`).
pub proof fn lemma_dec_chars_len_le(n: nat, w: nat)
    requires
        w >= 1,
        n < pow10(w),
    ensures
        dec_chars(n).len() <= w,
    decreases n,
{
    if n >= 10 {
        assert(pow10(w) == 10 * pow10((w - 1) as nat));
        assert(n / 10 < pow10((w - 1) as nat)) by (nonlinear_arith)
            requires
                n < 10 * pow10((w - 1) as nat),
        ;
        lemma_dec_chars_len_le(n / 10, (w - 1) as nat);
    }
}

/// Appends the digit character for `d`.
pub fn push_digit(out: &mut String, d: u64)
    requires
        d < 10,
    ensures
        final(out)@ == old(out)@ + seq![digit_char(d as int)],
{
    proof {
        reveal_strlit("0");
        reveal_strlit("1");
        reveal_strlit("2");
        reveal_strlit("3");
        reveal_strlit("4");
        reveal_strlit("5");
        reveal_strlit("6");
        reveal_strlit("7");
        reveal_strlit("8");
        reveal_strlit("9");
    }
    match d {
        0 => out.append("0"),
        1 => out.append("1"),
        2 => out.append("2"),
        3 => out.append("3"),
        4 => out.append("4"),
        5 => out.append("5"),
        6 => out.append("6"),
        7 => out.append("7"),
        8 => out.append("8"),
        _ => out.append("9"),
    }
    proof {
        assert(final(out)@ =~= old(out)@ + seq![digit_char(d as int)]);
    }
}

/// Appends the decimal rendering of `n`, without leading zeros.
pub fn push_u64_dec(out: &mut String, n: u64)
    ensures
        final(out)@ == old(out)@ + dec_chars(n as nat),
    decreases n,
{
    if n < 10 {
        push_digit(out, n);
    } else {
        push_u64_dec(out, n / 10);
        push_digit(out, n % 10);
        proof {
            assert(final(out)@ =~= old(out)@ + dec_chars(n as nat));
        }
    }
}

/// Appends the `width` least-significant decimal digits of `n`,
/// left-padded with zeros.
pub fn push_dec_padded(out: &mut String, n: u64, width: u64)
    ensures
        final(out)@ == old(out)@ + dec_chars_padded(n as nat, width as nat),
    decreases width,
{
    if width > 0 {
        push_dec_padded(out, n / 10, width - 1);
        push_digit(out, n % 10);
        proof {
            assert(final(out)@ =~= old(out)@ + dec_chars_padded(n as nat, width as nat));
        }
    } else {
        proof {
            assert(final(out)@ =~= old(out)@ + dec_chars_padded(n as nat, 0));
        }
    }
}

/// Appends the decimal rendering of a signed integer.
pub fn push_i64_dec(out: &mut String, v: i64)
    ensures
        final(out)@ == old(out)@ + int_chars(v as int),
{
    proof {
        reveal_strlit("-");
    }
    if v < 0 {
        out.append("-");
        let mag: u64 = (-(v as i128)) as u64;
        assert(mag == -(v as int));
        push_u64_dec(out, mag);
        proof {
            assert(final(out)@ =~= old(out)@ + int_chars(v as int));
        }
    } else {
        push_u64_dec(out, v as u64);
    }
}

/// Appends the rendering of a fixed-point value counted in millionths.
pub fn push_analog(out: &mut String, micros: i64)
    ensures
        final(out)@ == old(out)@ + analog_chars(micros as int),
{
    proof {
        reveal_strlit("-");
        reveal_strlit(".");
    }
    let mag: u64 = if micros < 0 {
        out.append("-");
        (-(micros as i128)) as u64
    } else {
        micros as u64
    };
    assert(mag == if micros < 0 {
        -(micros as int)
    } else {
        micros as int
    });
    push_u64_dec(out, mag / 1000000);
    out.append(".");
    push_dec_padded(out, mag % 1000000, 6);
    proof {
        assert(final(out)@ =~= old(out)@ + analog_chars(micros as int));
    }
}

/// Appends the rendering of a non-negative fixed-point value counted
/// in millionths.
pub fn push_fixed6(out: &mut String, micros: u64)
    ensures
        final(out)@ == old(out)@ + analog_chars(micros as int),
{
    proof {
        reveal_strlit(".");
    }
    push_u64_dec(out, micros / 1000000);
    out.append(".");
    push_dec_padded(out, micros % 1000000, 6);
    proof {
        assert(final(out)@ =~= old(out)@ + analog_chars(micros as int));
    }
}

} // verus!
