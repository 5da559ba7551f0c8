//! Joystick snapshot diffing for the polled device path.
//!
//! The poller reads a full device state at a short fixed interval; the
//! diff of two consecutive snapshots names every channel whose value
//! changed, in a fixed order, so the poller can report exactly those.

use vstd::prelude::*;

verus! {

/// The channel groups of a joystick snapshot, in report order.
#[derive(Debug, Clone, Copy, PartialEq, Eq, Structural)]
pub enum JoyGroup {
    Axis,
    Slider,
    Pov,
    Button,
}

/// One changed channel: which, and the value before and after.
#[derive(Debug, Clone, Copy, PartialEq, Eq, Structural)]
pub struct FieldChange {
    pub group: JoyGroup,
    pub index: usize,
    pub before: i64,
    pub after: i64,
}

/// One polled snapshot of a joystick: six axes, two sliders, four
/// point-of-view hats, and the button states.
pub struct JoystickState {
    pub axes: Vec<i32>,
    pub sliders: Vec<i32>,
    pub povs: Vec<u32>,
    pub buttons: Vec<u8>,
}

impl JoystickState {
    /// A snapshot with the channel counts the device reports.
    pub open spec fn wf(self) -> bool {
        &&& self.axes@.len() == 6
        &&& self.sliders@.len() == 2
        &&& self.povs@.len() == 4
        &&& self.buttons@.len() == 128
    }
}

/// The changes between two equal-length channel lists, from index `i`
/// on: one entry per position whose value differs.
pub open spec fn changes_from(g: JoyGroup, a: Seq<i64>, b: Seq<i64>, i: int) -> Seq<FieldChange>
    decreases a.len() - i,
{
    if i < 0 || i >= a.len() {
        Seq::<FieldChange>::empty()
    } else {
        (if a[i] != b[i] {
            seq![FieldChange { group: g, index: i as usize, before: a[i], after: b[i] }]
        } else {
            Seq::<FieldChange>::empty()
        }) + changes_from(g, a, b, i + 1)
    }
}

/// A channel list widened to `i64`.
pub open spec fn widened_i32(v: Seq<i32>) -> Seq<i64> {
    v.map(|i: int, x: i32| x as i64)
}

/// A channel list widened to `i64`.
pub open spec fn widened_u32(v: Seq<u32>) -> Seq<i64> {
    v.map(|i: int, x: u32| x as i64)
}

/// A channel list widened to `i64`.
pub open spec fn widened_u8(v: Seq<u8>) -> Seq<i64> {
    v.map(|i: int, x: u8| x as i64)
}

/// The full diff of two snapshots: changed axes, then sliders, then
/// hats, then buttons, each group in channel order.
pub open spec fn spec_joystick_diff(prev: JoystickState, cur: JoystickState) -> Seq<FieldChange> {
    changes_from(JoyGroup::Axis, widened_i32(prev.axes@), widened_i32(cur.axes@), 0)
        + changes_from(JoyGroup::Slider, widened_i32(prev.sliders@), widened_i32(cur.sliders@), 0)
        + changes_from(JoyGroup::Pov, widened_u32(prev.povs@), widened_u32(cur.povs@), 0)
        + changes_from(JoyGroup::Button, widened_u8(prev.buttons@), widened_u8(cur.buttons@), 0)
}

/// Appends the changes of one channel group.
fn push_changes(out: &mut Vec<FieldChange>, g: JoyGroup, a: &Vec<i64>, b: &Vec<i64>)
    requires
        a@.len() == b@.len(),
    ensures
        final(out)@ =~= old(out)@ + changes_from(g, a@, b@, 0),
{
    let ghost full = changes_from(g, a@, b@, 0);
    let mut i: usize = 0;
    while i < a.len()
        invariant
            0 <= i <= a@.len() == b@.len(),
            changes_from(g, a@, b@, 0) =~= out@.skip(old(out)@.len() as int) + changes_from(
                g,
                a@,
                b@,
                i as int,
            ),
            out@.len() >= old(out)@.len(),
            out@.take(old(out)@.len() as int) =~= old(out)@,
        decreases a@.len() - i,
    {
        if a[i] != b[i] {
            out.push(FieldChange { group: g, index: i, before: a[i], after: b[i] });
        }
        i = i + 1;
        proof {
            assert(changes_from(g, a@, b@, 0) =~= out@.skip(old(out)@.len() as int)
                + changes_from(g, a@, b@, i as int));
        }
    }
    proof {
        assert(changes_from(g, a@, b@, a@.len() as int) =~= Seq::<FieldChange>::empty());
        assert(final(out)@ =~= old(out)@ + changes_from(g, a@, b@, 0));
    }
}

/// Widens the values of an axis or slider list.
fn widen_i32(v: &Vec<i32>) -> (r: Vec<i64>)
    ensures
        r@ =~= widened_i32(v@),
{
    let mut r: Vec<i64> = Vec::new();
    let mut i: usize = 0;
    while i < v.len()
        invariant
            0 <= i <= v@.len(),
            r@ =~= widened_i32(v@).take(i as int),
        decreases v@.len() - i,
    {
        r.push(v[i] as i64);
        i = i + 1;
    }
    r
}

/// Widens the values of a point-of-view hat list.
fn widen_u32(v: &Vec<u32>) -> (r: Vec<i64>)
    ensures
        r@ =~= widened_u32(v@),
{
    let mut r: Vec<i64> = Vec::new();
    let mut i: usize = 0;
    while i < v.len()
        invariant
            0 <= i <= v@.len(),
            r@ =~= widened_u32(v@).take(i as int),
        decreases v@.len() - i,
    {
        r.push(v[i] as i64);
        i = i + 1;
    }
    r
}

/// Widens the values of a button list.
fn widen_u8(v: &Vec<u8>) -> (r: Vec<i64>)
    ensures
        r@ =~= widened_u8(v@),
{
    let mut r: Vec<i64> = Vec::new();
    let mut i: usize = 0;
    while i < v.len()
        invariant
            0 <= i <= v@.len(),
            r@ =~= widened_u8(v@).take(i as int),
        decreases v@.len() - i,
    {
        r.push(v[i] as i64);
        i = i + 1;
    }
    r
}

/// Diffs two consecutive snapshots: every channel whose value changed,
/// in report order, with its value before and after.
pub fn diff(prev: &JoystickState, cur: &JoystickState) -> (r: Vec<FieldChange>)
    requires
        prev.wf(),
        cur.wf(),
    ensures
        r@ =~= spec_joystick_diff(*prev, *cur),
{
    let mut out: Vec<FieldChange> = Vec::new();
    push_changes(&mut out, JoyGroup::Axis, &widen_i32(&prev.axes), &widen_i32(&cur.axes));
    push_changes(&mut out, JoyGroup::Slider, &widen_i32(&prev.sliders), &widen_i32(&cur.sliders));
    push_changes(&mut out, JoyGroup::Pov, &widen_u32(&prev.povs), &widen_u32(&cur.povs));
    push_changes(&mut out, JoyGroup::Button, &widen_u8(&prev.buttons), &widen_u8(&cur.buttons));
    proof {
        assert(out@ =~= spec_joystick_diff(*prev, *cur));
    }
    out
}

} // verus!
