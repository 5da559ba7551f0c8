//! The recording orchestrator: the state machine that decides when a
//! session starts, rolls over and stops.
//!
//! The orchestrator owns at most one open session at any instant and is
//! its sole mutator.  It consumes debounced input events and periodic
//! liveness ticks, and answers with directives; performing a directive
//! (probing the foreground window, opening and closing the video and
//! log backends) is the caller's business, which reports an accepted
//! start back through [`Recorder::begin_session`].

use vstd::prelude::*;
use crate::events::{Event, Pid};
use crate::games::{entry_matches, find_unsupported_game, UnsupportedGame};
use crate::idle::IdlenessTracker;
use crate::session::Recording;

verus! {

/// How a rejected or accepted start is surfaced to the operator.
#[derive(Debug, Clone, Copy, PartialEq, Eq, Structural)]
pub enum NotificationType {
    Info,
    Error,
}

/// The foreground game, as probed by the caller: the executable's
/// name, its process and its fullscreen window.
pub struct ForegroundGame {
    pub exe_name: String,
    pub pid: Pid,
    pub window: u64,
}

/// The outcome of a start attempt.
#[derive(Debug, Clone, Copy, PartialEq, Eq, Structural)]
pub enum StartDecision {
    /// A session is already open: starting again is a no-op.
    AlreadyRecording,
    /// No fullscreen foreground game was found: reject with a notice.
    NoFullscreenGame,
    /// The game is in the unsupported table: reject, citing the
    /// entry's reason.
    Unsupported { index: usize },
    /// Open the backends and begin a session for the probed game.
    Launch,
}

/// What to do with an input event, beyond recording it.
#[derive(Debug, Clone, Copy, PartialEq, Eq, Structural)]
pub enum InputDirective {
    /// Nothing beyond the activity bookkeeping.
    Nothing,
    /// Attempt to start a session.
    AttemptStart,
    /// Stop the open session, if any.
    StopRecording,
}

/// What a periodic liveness tick asks for.
#[derive(Debug, Clone, Copy, PartialEq, Eq, Structural)]
pub enum TickDirective {
    /// Keep recording (or keep idling).
    Nothing,
    /// The game's process is gone: stop the session.
    StopRecording,
    /// The idle threshold was reached: stop, armed to resume on the
    /// next activity.
    StopAndArm,
    /// The session hit its maximum duration: stop it and immediately
    /// start a new one, with no tick skipped in between.
    StopThenStart,
}

/// The orchestrator's state: at most one open session, the
/// resume-on-activity flag, and the idleness tracker.
pub struct Recorder {
    recording: Option<Recording>,
    start_on_activity: bool,
    idle: IdlenessTracker,
}

impl Recorder {
    /// The open session, if any.
    pub closed spec fn spec_recording(self) -> Option<Recording> {
        self.recording
    }

    /// Whether a session is open.
    pub open spec fn is_recording(self) -> bool {
        self.spec_recording() is Some
    }

    /// Whether the next activity should start a session.
    pub closed spec fn armed(self) -> bool {
        self.start_on_activity
    }

    /// The idleness tracker's state.
    pub closed spec fn spec_idle(self) -> IdlenessTracker {
        self.idle
    }

    /// Every open session can still record.
    pub closed spec fn wf(self) -> bool {
        match self.recording {
            Option::Some(r) => r.wf(),
            Option::None => true,
        }
    }

    /// An idle orchestrator, counting activity from `now_micros`.
    pub fn new(idle_duration_micros: u64, now_micros: u64) -> (r: Recorder)
        ensures
            r.wf(),
            !r.is_recording(),
            !r.armed(),
            r.spec_idle().idle_duration() == idle_duration_micros,
            r.spec_idle().last_active() == now_micros,
    {
        Recorder {
            recording: Option::None,
            start_on_activity: false,
            idle: IdlenessTracker::new(idle_duration_micros, now_micros),
        }
    }

    /// The open session, for recording input rows into it.  A
    /// well-formed orchestrator hands out a well-formed session, and is
    /// well-formed again once the borrow is returned well-formed.
    pub fn recording(&mut self) -> (r: Option<&mut Recording>)
        ensures
            old(self).is_recording() <==> r is Some,
            r is Some ==> {
                &&& *r.unwrap() == old(self).spec_recording().unwrap()
                &&& final(self).spec_recording() == Option::Some(*final(r.unwrap()))
            },
            r is None ==> *final(self) == *old(self),
            final(self).armed() == old(self).armed(),
            final(self).spec_idle() == old(self).spec_idle(),
            old(self).wf() && r is Some ==> (*r.unwrap()).wf(),
            old(self).wf() && (r is Some ==> (*final(r.unwrap())).wf()) ==> final(self).wf(),
    {
        match &mut self.recording {
            Option::Some(rec) => Option::Some(rec),
            Option::None => Option::None,
        }
    }

    /// Decides a start attempt: a no-op while a session is open, a
    /// rejection when no fullscreen game is in the foreground or the
    /// game's stripped, lower-cased executable name matches the
    /// unsupported table, and a launch otherwise.
    pub fn decide_start(
        &self,
        probe: Option<&ForegroundGame>,
        games: &Vec<UnsupportedGame>,
    ) -> (d: StartDecision)
        ensures
            match d {
                StartDecision::AlreadyRecording => self.is_recording(),
                StartDecision::NoFullscreenGame => !self.is_recording() && probe is None,
                StartDecision::Unsupported { index } => {
                    &&& !self.is_recording()
                    &&& probe is Some
                    &&& 0 <= index < games@.len()
                    &&& entry_matches(games@[index as int], probe.unwrap().exe_name@)
                    &&& forall|j: int|
                        0 <= j < index ==> !entry_matches(games@[j], probe.unwrap().exe_name@)
                },
                StartDecision::Launch => {
                    &&& !self.is_recording()
                    &&& probe is Some
                    &&& forall|j: int|
                        0 <= j < games@.len() ==> !entry_matches(
                            games@[j],
                            probe.unwrap().exe_name@,
                        )
                },
            },
    {
        if self.recording.is_some() {
            return StartDecision::AlreadyRecording;
        }
        match probe {
            Option::None => StartDecision::NoFullscreenGame,
            Option::Some(game) => match find_unsupported_game(games, game.exe_name.as_str()) {
                Option::Some(index) => StartDecision::Unsupported { index },
                Option::None => StartDecision::Launch,
            },
        }
    }

    /// Installs a freshly opened session.  While a session is already
    /// open the new one is returned to the caller untouched and
    /// nothing changes: at most one session exists at any instant.
    /// Accepting a session counts as activity at its start instant.
    pub fn begin_session(&mut self, s: Recording) -> (rejected: Option<Recording>)
        requires
            old(self).wf(),
            s.wf(),
        ensures
            final(self).wf(),
            old(self).is_recording() ==> rejected == Option::Some(s) && *final(self) == *old(
                self,
            ),
            !old(self).is_recording() ==> {
                &&& rejected is None
                &&& final(self).spec_recording() == Option::Some(s)
                &&& final(self).armed() == old(self).armed()
                &&& final(self).spec_idle().idle_duration() == old(
                    self,
                ).spec_idle().idle_duration()
                &&& final(self).spec_idle().last_active() == s.spec_start_instant()
            },
    {
        if self.recording.is_some() {
            return Option::Some(s);
        }
        self.idle.update_activity(s.start_instant());
        self.recording = Option::Some(s);
        Option::None
    }

    /// Takes the open session out for the caller to close.  A second
    /// take is an idempotent no-op returning `None`.
    pub fn take_session(&mut self) -> (r: Option<Recording>)
        requires
            old(self).wf(),
        ensures
            final(self).wf(),
            r == old(self).spec_recording(),
            !final(self).is_recording(),
            final(self).armed() == old(self).armed(),
            final(self).spec_idle() == old(self).spec_idle(),
    {
        self.recording.take()
    }

    /// Reacts to one debounced input event: the start hotkey asks for
    /// a start, the stop hotkey asks for a stop and disarms, and any
    /// other input asks for a start only while armed after an
    /// idle-triggered stop, disarming as it fires.  Every event counts
    /// as activity.
    pub fn on_input(&mut self, e: &Event, start_key: u16, stop_key: u16, now_micros: u64) -> (d:
        InputDirective)
        requires
            old(self).wf(),
        ensures
            final(self).wf(),
            d == spec_input_directive(*old(self), *e, start_key, stop_key),
            final(self).armed() == spec_input_armed(*old(self), *e, start_key, stop_key),
            final(self).spec_recording() == old(self).spec_recording(),
            final(self).spec_idle().idle_duration() == old(self).spec_idle().idle_duration(),
            final(self).spec_idle().last_active() == now_micros,
    {
        let key = crate::events::keycode_from_event(e);
        let d = match key {
            Option::Some(k) => {
                if k == start_key {
                    InputDirective::AttemptStart
                } else if k == stop_key {
                    self.start_on_activity = false;
                    InputDirective::StopRecording
                } else if self.start_on_activity {
                    self.start_on_activity = false;
                    InputDirective::AttemptStart
                } else {
                    InputDirective::Nothing
                }
            },
            Option::None => {
                if self.start_on_activity {
                    self.start_on_activity = false;
                    InputDirective::AttemptStart
                } else {
                    InputDirective::Nothing
                }
            },
        };
        self.idle.update_activity(now_micros);
        d
    }

    /// Reacts to one periodic liveness tick: while a session is open,
    /// a vanished game process stops it, reaching the idle threshold
    /// stops it and arms resume-on-activity, and exceeding the maximum
    /// duration asks for exactly one stop followed by exactly one
    /// start.
    pub fn on_tick(&mut self, process_exists: bool, now_micros: u64, max_duration_micros: u64) -> (
        d: TickDirective)
        requires
            old(self).wf(),
        ensures
            final(self).wf(),
            d == spec_tick_directive(*old(self), process_exists, now_micros, max_duration_micros),
            final(self).armed() == (old(self).armed() || d is StopAndArm),
            final(self).spec_recording() == old(self).spec_recording(),
            final(self).spec_idle() == old(self).spec_idle(),
    {
        let elapsed: u64 = match &self.recording {
            Option::None => {
                return TickDirective::Nothing;
            },
            Option::Some(rec) => rec.elapsed_micros(now_micros),
        };
        if !process_exists {
            TickDirective::StopRecording
        } else if self.idle.is_idle(now_micros) {
            self.start_on_activity = true;
            TickDirective::StopAndArm
        } else if elapsed > max_duration_micros {
            TickDirective::StopThenStart
        } else {
            TickDirective::Nothing
        }
    }
}

/// The directive an input event earns: the start hotkey asks for a
/// start, the stop hotkey for a stop, and any other input for a start
/// exactly while armed.
pub open spec fn spec_input_directive(
    r: Recorder,
    e: Event,
    start_key: u16,
    stop_key: u16,
) -> InputDirective {
    match crate::events::spec_key_press_keycode(e) {
        Option::Some(k) => {
            if k == start_key {
                InputDirective::AttemptStart
            } else if k == stop_key {
                InputDirective::StopRecording
            } else if r.armed() {
                InputDirective::AttemptStart
            } else {
                InputDirective::Nothing
            }
        },
        Option::None => {
            if r.armed() {
                InputDirective::AttemptStart
            } else {
                InputDirective::Nothing
            }
        },
    }
}

/// The armed flag after an input event: the stop hotkey disarms, an
/// armed start fires and disarms, the start hotkey leaves it alone.
pub open spec fn spec_input_armed(r: Recorder, e: Event, start_key: u16, stop_key: u16) -> bool {
    match crate::events::spec_key_press_keycode(e) {
        Option::Some(k) => {
            if k == start_key {
                r.armed()
            } else {
                false
            }
        },
        Option::None => false,
    }
}

/// The directive a liveness tick earns while a session is open:
/// process gone beats idleness beats the duration cap.
pub open spec fn spec_tick_directive(
    r: Recorder,
    process_exists: bool,
    now_micros: u64,
    max_duration_micros: u64,
) -> TickDirective {
    match r.spec_recording() {
        Option::None => TickDirective::Nothing,
        Option::Some(rec) => {
            if !process_exists {
                TickDirective::StopRecording
            } else if now_micros >= r.spec_idle().last_active() + r.spec_idle().idle_duration() {
                TickDirective::StopAndArm
            } else if (if now_micros >= rec.spec_start_instant() {
                now_micros - rec.spec_start_instant()
            } else {
                0
            }) > max_duration_micros {
                TickDirective::StopThenStart
            } else {
                TickDirective::Nothing
            }
        },
    }
}

/// While a session is open, a second start attempt decides
/// `AlreadyRecording` and opens nothing: at most one session exists at
/// any instant, and two consecutive starts yield one session.
pub proof fn lemma_second_start_is_noop(r: Recorder, d: StartDecision)
    requires
        r.is_recording(),
        match d {
            StartDecision::AlreadyRecording => r.is_recording(),
            StartDecision::NoFullscreenGame => !r.is_recording(),
            StartDecision::Unsupported { index } => !r.is_recording(),
            StartDecision::Launch => !r.is_recording(),
        },
    ensures
        d is AlreadyRecording,
{
}

/// An executable whose folded base name matches an unsupported-table
/// entry is never decided `Launch`: the table check yields zero sessions for
/// it.
pub proof fn lemma_unsupported_never_launches(
    r: Recorder,
    games: Seq<UnsupportedGame>,
    exe: Seq<char>,
    d: StartDecision,
    i: int,
)
    requires
        0 <= i < games.len(),
        entry_matches(games[i], exe),
        match d {
            StartDecision::Launch => forall|j: int|
                0 <= j < games.len() ==> !entry_matches(games[j], exe),
            _ => true,
        },
    ensures
        !(d is Launch),
{
}

/// A liveness tick on a live, non-idle session past its maximum
/// duration asks for exactly one stop followed by exactly one start,
/// and for nothing else.
pub proof fn lemma_rollover_is_one_stop_one_start(
    r: Recorder,
    now_micros: u64,
    max_duration_micros: u64,
)
    requires
        r.is_recording(),
        now_micros < r.spec_idle().last_active() + r.spec_idle().idle_duration(),
        now_micros >= r.spec_recording().unwrap().spec_start_instant(),
        now_micros - r.spec_recording().unwrap().spec_start_instant() > max_duration_micros,
    ensures
        spec_tick_directive(r, true, now_micros, max_duration_micros)
            == TickDirective::StopThenStart,
        spec_tick_directive(r, false, now_micros, max_duration_micros)
            == TickDirective::StopRecording,
{
}

/// After an idle-triggered stop the orchestrator is armed, and the
/// next input event — whatever it is, so long as it is not the stop
/// hotkey — asks for a start; the arm is cleared unless the event was
/// the explicit start hotkey.
pub proof fn lemma_armed_input_starts(r: Recorder, e: Event, start_key: u16, stop_key: u16)
    requires
        r.armed(),
        crate::events::spec_key_press_keycode(e) != Option::Some(stop_key),
    ensures
        spec_input_directive(r, e, start_key, stop_key) == InputDirective::AttemptStart,
        !spec_input_armed(r, e, start_key, stop_key) || crate::events::spec_key_press_keycode(e)
            == Option::Some(start_key),
{
}

/// The armed resume fires at most once: an armed input other than the
/// start hotkey clears the arm, and a later ordinary input — no hotkey
/// pressed — asks for nothing.
pub proof fn lemma_armed_resume_fires_once(
    r0: Recorder,
    r1: Recorder,
    e1: Event,
    e2: Event,
    start_key: u16,
    stop_key: u16,
)
    requires
        r0.armed(),
        crate::events::spec_key_press_keycode(e1) != Option::Some(start_key),
        r1.armed() == spec_input_armed(r0, e1, start_key, stop_key),
        crate::events::spec_key_press_keycode(e2) != Option::Some(start_key),
        crate::events::spec_key_press_keycode(e2) != Option::Some(stop_key),
    ensures
        !r1.armed(),
        spec_input_directive(r1, e2, start_key, stop_key) == InputDirective::Nothing,
{
}

} // verus!
