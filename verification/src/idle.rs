//! The idleness tracker: a pure last-activity timer.
//!
//! Instants are microseconds of a monotonic clock, supplied by the
//! caller; the tracker itself performs no I/O.

use vstd::prelude::*;

verus! {

/// Tracks the instant of the last observed activity and reports whether
/// the configured idle threshold has been reached.
pub struct IdlenessTracker {
    idle_duration: u64,
    last_active: u64,
}

impl IdlenessTracker {
    /// The configured idle threshold, in microseconds.
    pub closed spec fn idle_duration(self) -> u64 {
        self.idle_duration
    }

    /// The instant of the last recorded activity, in microseconds.
    pub closed spec fn last_active(self) -> u64 {
        self.last_active
    }

    /// A tracker that counts activity as last seen at `now_micros`.
    pub fn new(idle_duration_micros: u64, now_micros: u64) -> (r: Self)
        ensures
            r.idle_duration() == idle_duration_micros,
            r.last_active() == now_micros,
    {
        IdlenessTracker { idle_duration: idle_duration_micros, last_active: now_micros }
    }

    /// Resets the last-activity instant to `now_micros`.
    pub fn update_activity(&mut self, now_micros: u64)
        ensures
            final(self).last_active() == now_micros,
            final(self).idle_duration() == old(self).idle_duration(),
    {
        self.last_active = now_micros;
    }

    /// Whether at least the idle threshold has passed since the last
    /// recorded activity.
    pub fn is_idle(&self, now_micros: u64) -> (r: bool)
        ensures
            r == (now_micros >= self.last_active() + self.idle_duration()),
    {
        now_micros >= self.last_active && now_micros - self.last_active >= self.idle_duration
    }
}

} // verus!
