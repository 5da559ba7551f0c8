//! The event debouncer: digital edge detection and analog rate limiting.
//!
//! Digital controls (keyboard, mouse buttons, gamepad buttons) forward a
//! `Pressed` only on the 0-to-1 transition within the control's device
//! class, which filters OS auto-repeat; a `Released` is always forwarded
//! and unconditionally clears the pressed mark.  Analog channels forward a
//! change only when more than [`MIN_ANALOG_GAP_MICROS`] microseconds have
//! passed since the channel's last forwarded change, halving the effective
//! sampling rate relative to the paired video frame rate.  Mouse movement
//! and scrolling are never debounced.

use vstd::prelude::*;
use std::collections::HashMap;
use std::collections::HashSet;
use crate::events::{Event, PressState};

verus! {

/// Frame rate of the paired video recording.
pub const TARGET_FPS: u64 = 60;

/// Minimum number of microseconds between two forwarded changes of one
/// analog channel: half the sampling period of `2 * TARGET_FPS`.
pub const MIN_ANALOG_GAP_MICROS: u64 = 1_000_000 / (2 * TARGET_FPS);

/// Whether a digital event is forwarded: releases always, presses only
/// for a code not currently marked pressed.
pub open spec fn key_forwards(pressed: Set<u16>, key: u16, press_state: PressState) -> bool {
    press_state is Released || !pressed.contains(key)
}

/// The pressed-code set after a digital event: a press marks the code, a
/// release clears it even if it was never marked.
pub open spec fn key_step(pressed: Set<u16>, key: u16, press_state: PressState) -> Set<u16> {
    if press_state is Pressed {
        pressed.insert(key)
    } else {
        pressed.remove(key)
    }
}

/// Whether an analog change is forwarded: always for a channel that has
/// not emitted yet, otherwise only when strictly more than
/// [`MIN_ANALOG_GAP_MICROS`] microseconds have passed since the channel's
/// last forwarded change.
pub open spec fn analog_forwards(last_emit: Map<u16, u64>, key: u16, now_micros: u64) -> bool {
    !last_emit.contains_key(key) || now_micros > last_emit[key] + MIN_ANALOG_GAP_MICROS
}

/// The last-emission map after an analog change: forwarding records the
/// emission instant, a suppressed change leaves the map untouched.
pub open spec fn analog_step(last_emit: Map<u16, u64>, key: u16, now_micros: u64) -> Map<
    u16,
    u64,
> {
    if analog_forwards(last_emit, key, now_micros) {
        last_emit.insert(key, now_micros)
    } else {
        last_emit
    }
}

/// Edge detector for one digital device class: keeps the set of codes
/// currently held down.
pub struct KeyDebouncer {
    pressed_keys: HashSet<u16>,
}

impl KeyDebouncer {
    /// The set of codes currently marked pressed.
    pub closed spec fn pressed(self) -> Set<u16> {
        self.pressed_keys@
    }

    /// A debouncer with no code marked pressed.
    pub fn new() -> (r: Self)
        ensures
            r.pressed() == Set::<u16>::empty(),
    {
        KeyDebouncer { pressed_keys: HashSet::new() }
    }

    /// Returns whether the event should be processed; updates the
    /// pressed-code set accordingly.
    pub fn debounce(&mut self, key: u16, press_state: PressState) -> (forward: bool)
        ensures
            forward == key_forwards(old(self).pressed(), key, press_state),
            final(self).pressed() == key_step(old(self).pressed(), key, press_state),
    {
        match press_state {
            PressState::Pressed => self.pressed_keys.insert(key),
            PressState::Released => {
                self.pressed_keys.remove(&key);
                true
            },
        }
    }
}

/// Rate limiter for analog channels of one device class: keeps the
/// instant of each channel's last forwarded change, in microseconds of a
/// monotonic clock.
pub struct AnalogDebouncer {
    last_change: HashMap<u16, u64>,
}

impl AnalogDebouncer {
    /// The last forwarded-change instant of each channel.
    pub closed spec fn last_emit(self) -> Map<u16, u64> {
        self.last_change@
    }

    /// A rate limiter that has not yet emitted on any channel.
    pub fn new() -> (r: Self)
        ensures
            r.last_emit() == Map::<u16, u64>::empty(),
    {
        AnalogDebouncer { last_change: HashMap::new() }
    }

    /// Returns whether enough time has passed since the channel's last
    /// forwarded change for this one to be forwarded too.
    pub fn debounce(&mut self, key: u16, now_micros: u64) -> (forward: bool)
        ensures
            forward == analog_forwards(old(self).last_emit(), key, now_micros),
            final(self).last_emit() == analog_step(old(self).last_emit(), key, now_micros),
    {
        let prev: Option<u64> = match self.last_change.get(&key) {
            Some(v) => Some(*v),
            None => None,
        };
        match prev {
            None => {
                self.last_change.insert(key, now_micros);
                true
            },
            Some(last) => {
                if now_micros >= last && now_micros - last > MIN_ANALOG_GAP_MICROS {
                    self.last_change.insert(key, now_micros);
                    true
                } else {
                    false
                }
            },
        }
    }
}

/// Debouncer over the whole normalized event stream, with an independent
/// namespace per device class.
pub struct EventDebouncer {
    keyboard: KeyDebouncer,
    mouse_key: KeyDebouncer,
    gamepad_button: KeyDebouncer,
    gamepad_button_value: AnalogDebouncer,
    gamepad_axis: AnalogDebouncer,
}

/// Whether the debouncer forwards `e` at instant `now_micros`: digital
/// edge detection per device class, analog rate limiting per channel,
/// mouse movement and scrolling always.
pub open spec fn event_forwards(d: EventDebouncer, e: Event, now_micros: u64) -> bool {
    match e {
        Event::MousePress { key, press_state } => key_forwards(d.mouse(), key, press_state),
        Event::KeyPress { key, press_state } => key_forwards(d.keyboard(), key, press_state),
        Event::GamepadButtonPress { key, press_state } => key_forwards(
            d.buttons(),
            key,
            press_state,
        ),
        Event::GamepadButtonChange { key, value } => analog_forwards(
            d.button_values(),
            key,
            now_micros,
        ),
        Event::GamepadAxisChange { axis, value } => analog_forwards(d.axes(), axis, now_micros),
        _ => true,
    }
}

impl EventDebouncer {
    /// Pressed keyboard codes.
    pub closed spec fn keyboard(self) -> Set<u16> {
        self.keyboard.pressed()
    }

    /// Pressed mouse-button codes.
    pub closed spec fn mouse(self) -> Set<u16> {
        self.mouse_key.pressed()
    }

    /// Pressed gamepad-button codes.
    pub closed spec fn buttons(self) -> Set<u16> {
        self.gamepad_button.pressed()
    }

    /// Last forwarded change per analog gamepad button.
    pub closed spec fn button_values(self) -> Map<u16, u64> {
        self.gamepad_button_value.last_emit()
    }

    /// Last forwarded change per gamepad axis.
    pub closed spec fn axes(self) -> Map<u16, u64> {
        self.gamepad_axis.last_emit()
    }

    /// A debouncer with every device class in its initial state.
    pub fn new() -> (r: Self)
        ensures
            r.keyboard() == Set::<u16>::empty(),
            r.mouse() == Set::<u16>::empty(),
            r.buttons() == Set::<u16>::empty(),
            r.button_values() == Map::<u16, u64>::empty(),
            r.axes() == Map::<u16, u64>::empty(),
    {
        EventDebouncer {
            keyboard: KeyDebouncer::new(),
            mouse_key: KeyDebouncer::new(),
            gamepad_button: KeyDebouncer::new(),
            gamepad_button_value: AnalogDebouncer::new(),
            gamepad_axis: AnalogDebouncer::new(),
        }
    }

    /// Returns whether the event should be processed, and advances only
    /// the state of the event's own device class.
    pub fn debounce(&mut self, e: Event, now_micros: u64) -> (forward: bool)
        ensures
            forward == event_forwards(*old(self), e, now_micros),
            final(self).keyboard() == match e {
                Event::KeyPress { key, press_state } => key_step(
                    old(self).keyboard(),
                    key,
                    press_state,
                ),
                _ => old(self).keyboard(),
            },
            final(self).mouse() == match e {
                Event::MousePress { key, press_state } => key_step(
                    old(self).mouse(),
                    key,
                    press_state,
                ),
                _ => old(self).mouse(),
            },
            final(self).buttons() == match e {
                Event::GamepadButtonPress { key, press_state } => key_step(
                    old(self).buttons(),
                    key,
                    press_state,
                ),
                _ => old(self).buttons(),
            },
            final(self).button_values() == match e {
                Event::GamepadButtonChange { key, value } => analog_step(
                    old(self).button_values(),
                    key,
                    now_micros,
                ),
                _ => old(self).button_values(),
            },
            final(self).axes() == match e {
                Event::GamepadAxisChange { axis, value } => analog_step(
                    old(self).axes(),
                    axis,
                    now_micros,
                ),
                _ => old(self).axes(),
            },
    {
        match e {
            Event::MousePress { key, press_state } => self.mouse_key.debounce(key, press_state),
            Event::KeyPress { key, press_state } => self.keyboard.debounce(key, press_state),
            Event::GamepadButtonPress { key, press_state } => self.gamepad_button.debounce(
                key,
                press_state,
            ),
            Event::GamepadButtonChange { key, value: _ } => self.gamepad_button_value.debounce(
                key,
                now_micros,
            ),
            Event::GamepadAxisChange { axis, value: _ } => self.gamepad_axis.debounce(
                axis,
                now_micros,
            ),
            Event::MouseMove { .. } => true,
            Event::MouseScroll { .. } => true,
        }
    }
}

/// Forwarded count of `n` consecutive `Pressed` events for `key`,
/// starting from pressed-set `pressed`, with the set advanced by
/// [`key_step`] after each event.
pub open spec fn pressed_run_forwarded(pressed: Set<u16>, key: u16, n: nat) -> nat
    decreases n,
{
    if n == 0 {
        0
    } else {
        (if key_forwards(pressed, key, PressState::Pressed) {
            1nat
        } else {
            0nat
        }) + pressed_run_forwarded(key_step(pressed, key, PressState::Pressed), key, (n - 1) as nat)
    }
}

/// Of any run of `Pressed` events for one code with no intervening
/// `Released`, only the first is forwarded: starting from a set where the
/// code is not held, a run of `n >= 1` presses forwards exactly one
/// event; starting from a set where it is held, none.
pub proof fn lemma_repeated_press_forwarded_once(pressed: Set<u16>, key: u16, n: nat)
    ensures
        pressed.contains(key) ==> pressed_run_forwarded(pressed, key, n) == 0,
        n >= 1 && !pressed.contains(key) ==> pressed_run_forwarded(pressed, key, n) == 1,
    decreases n,
{
    if n > 0 {
        lemma_repeated_press_forwarded_once(
            key_step(pressed, key, PressState::Pressed),
            key,
            (n - 1) as nat,
        );
    }
}

/// A `Released` is always forwarded, and afterwards the code is not
/// marked pressed, whether or not it was before.
pub proof fn lemma_release_always_forwarded_and_clears(pressed: Set<u16>, key: u16)
    ensures
        key_forwards(pressed, key, PressState::Released),
        !key_step(pressed, key, PressState::Released).contains(key),
{
}

/// Two forwarded changes of one analog channel are separated by strictly
/// more than [`MIN_ANALOG_GAP_MICROS`] microseconds.
pub proof fn lemma_analog_minimum_gap(last_emit: Map<u16, u64>, key: u16, now_micros: u64)
    requires
        last_emit.contains_key(key),
        analog_forwards(last_emit, key, now_micros),
    ensures
        now_micros - last_emit[key] > MIN_ANALOG_GAP_MICROS,
{
}

/// Forwarded count of a run of changes for channel `key` at the instants
/// in `ts`, starting from last-emission map `last_emit`, with the map
/// advanced by [`analog_step`] after each change.
pub open spec fn analog_run_forwarded(last_emit: Map<u16, u64>, key: u16, ts: Seq<u64>) -> nat
    decreases ts.len(),
{
    if ts.len() == 0 {
        0
    } else {
        (if analog_forwards(last_emit, key, ts[0]) {
            1nat
        } else {
            0nat
        }) + analog_run_forwarded(analog_step(last_emit, key, ts[0]), key, ts.drop_first())
    }
}

/// A run of changes for a channel that already emitted at `t0` forwards
/// nothing while every change falls within the minimum gap after `t0`.
pub proof fn lemma_analog_run_within_gap_suppressed(last_emit: Map<u16, u64>, key: u16, ts: Seq<u64>)
    requires
        last_emit.contains_key(key),
        forall|i: int| 0 <= i < ts.len() ==> ts[i] <= last_emit[key] + MIN_ANALOG_GAP_MICROS,
    ensures
        analog_run_forwarded(last_emit, key, ts) == 0,
    decreases ts.len(),
{
    if ts.len() > 0 {
        assert(!analog_forwards(last_emit, key, ts[0]));
        lemma_analog_run_within_gap_suppressed(last_emit, key, ts.drop_first());
    }
}

/// Any number of changes of one analog channel within a window no wider
/// than the minimum gap yield exactly one forwarded change: the channel
/// has not emitted yet, the first change is forwarded, and every later
/// change of the run falls within the minimum gap after the first.
pub proof fn lemma_analog_window_forwards_once(last_emit: Map<u16, u64>, key: u16, ts: Seq<u64>)
    requires
        !last_emit.contains_key(key),
        ts.len() >= 1,
        forall|i: int| 0 <= i < ts.len() ==> ts[0] <= #[trigger] ts[i] <= ts[0]
            + MIN_ANALOG_GAP_MICROS,
    ensures
        analog_run_forwarded(last_emit, key, ts) == 1,
{
    assert(analog_forwards(last_emit, key, ts[0]));
    let after = analog_step(last_emit, key, ts[0]);
    assert(after[key] == ts[0]);
    assert(forall|i: int| 0 <= i < ts.drop_first().len() ==> #[trigger] ts.drop_first()[i] == ts[
        i + 1
    ]);
    lemma_analog_run_within_gap_suppressed(after, key, ts.drop_first());
}

} // verus!
