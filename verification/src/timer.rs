//! The session countdown: a one-shot timer measured in whole milliseconds.
//!
//! The remaining time only ever shrinks: by the frame delta when the clock
//! ticks, and by a fixed penalty when the player redacts a character that
//! was not marked for redaction.

use vstd::prelude::*;

verus! {

/// How long a session lasts, in milliseconds.
pub const LIFETIME_MS: u64 = 200_000;

/// The fixed deduction applied when an unmarked character is redacted,
/// in milliseconds.
pub const PENALTY_MS: u64 = 1_000;

/// A one-shot countdown. Once the elapsed time reaches the full duration
/// the timer is finished and stays finished.
pub struct CountdownTimer {
    duration_ms: u64,
    elapsed_ms: u64,
}

impl CountdownTimer {
    /// The timer never records more elapsed time than its duration.
    pub closed spec fn well_formed(&self) -> bool {
        self.elapsed_ms <= self.duration_ms
    }

    pub closed spec fn spec_duration_ms(&self) -> u64 {
        self.duration_ms
    }

    pub closed spec fn spec_elapsed_ms(&self) -> u64 {
        self.elapsed_ms
    }

    /// Milliseconds left before the timer finishes.
    pub open spec fn spec_remaining_ms(&self) -> int {
        self.spec_duration_ms() - self.spec_elapsed_ms()
    }

    pub fn new(duration_ms: u64) -> (t: Self)
        ensures
            t.well_formed(),
            t.spec_duration_ms() == duration_ms,
            t.spec_elapsed_ms() == 0,
    {
        CountdownTimer { duration_ms, elapsed_ms: 0 }
    }

    /// Advance the clock by `delta_ms`, stopping at the full duration.
    /// The remaining time never grows.
    pub fn tick(&mut self, delta_ms: u64)
        requires
            old(self).well_formed(),
        ensures
            final(self).well_formed(),
            final(self).spec_duration_ms() == old(self).spec_duration_ms(),
            final(self).spec_elapsed_ms() == if old(self).spec_elapsed_ms() + delta_ms
                <= old(self).spec_duration_ms() {
                old(self).spec_elapsed_ms() + delta_ms
            } else {
                old(self).spec_duration_ms() as int
            },
            final(self).spec_remaining_ms() <= old(self).spec_remaining_ms(),
    {
        let room = self.duration_ms - self.elapsed_ms;
        if delta_ms < room {
            self.elapsed_ms = self.elapsed_ms + delta_ms;
        } else {
            self.elapsed_ms = self.duration_ms;
        }
    }

    /// Apply the fixed penalty for an incorrect redaction: the remaining
    /// time drops by `PENALTY_MS`, or to zero if less than that is left.
    pub fn penalty(&mut self)
        requires
            old(self).well_formed(),
        ensures
            final(self).well_formed(),
            final(self).spec_duration_ms() == old(self).spec_duration_ms(),
            final(self).spec_elapsed_ms() == if old(self).spec_elapsed_ms() + PENALTY_MS
                <= old(self).spec_duration_ms() {
                old(self).spec_elapsed_ms() + PENALTY_MS
            } else {
                old(self).spec_duration_ms() as int
            },
            final(self).spec_remaining_ms() <= old(self).spec_remaining_ms(),
    {
        self.tick(PENALTY_MS);
    }

    pub fn elapsed_ms(&self) -> (r: u64)
        ensures
            r == self.spec_elapsed_ms(),
    {
        self.elapsed_ms
    }

    pub fn duration_ms(&self) -> (r: u64)
        ensures
            r == self.spec_duration_ms(),
    {
        self.duration_ms
    }

    pub fn remaining_ms(&self) -> (r: u64)
        requires
            self.well_formed(),
        ensures
            r == self.spec_remaining_ms(),
    {
        self.duration_ms - self.elapsed_ms
    }

    /// Whole seconds left, rounded down.
    pub fn remaining_secs(&self) -> (r: u64)
        requires
            self.well_formed(),
        ensures
            r == self.spec_remaining_ms() / 1000,
    {
        (self.duration_ms - self.elapsed_ms) / 1000
    }

    pub fn is_finished(&self) -> (b: bool)
        requires
            self.well_formed(),
        ensures
            b == (self.spec_remaining_ms() == 0),
    {
        self.elapsed_ms == self.duration_ms
    }
}

/// Advance the countdown by one frame and report the state to switch to:
/// the session ends exactly when the countdown runs out.
pub fn update_countdown(timer: &mut CountdownTimer, delta_ms: u64) -> (next: Option<
    crate::GameState,
>)
    requires
        old(timer).well_formed(),
    ensures
        final(timer).well_formed(),
        final(timer).spec_duration_ms() == old(timer).spec_duration_ms(),
        final(timer).spec_elapsed_ms() == if old(timer).spec_elapsed_ms() + delta_ms
            <= old(timer).spec_duration_ms() {
            old(timer).spec_elapsed_ms() + delta_ms
        } else {
            old(timer).spec_duration_ms() as int
        },
        final(timer).spec_remaining_ms() <= old(timer).spec_remaining_ms(),
        next == if final(timer).spec_remaining_ms() == 0 {
            Some(crate::GameState::END)
        } else {
            None::<crate::GameState>
        },
{
    timer.tick(delta_ms);
    if timer.is_finished() {
        Some(crate::GameState::END)
    } else {
        None
    }
}

/// Split a whole number of remaining seconds into the minutes and seconds
/// shown on the alarm clock face.
pub fn clock_display(remaining_secs: u64) -> (ms: (u64, u64))
    ensures
        ms.0 == remaining_secs / 60,
        ms.1 == remaining_secs % 60,
        ms.1 < 60,
        ms.0 * 60 + ms.1 == remaining_secs,
{
    let m = remaining_secs / 60;
    let s = remaining_secs % 60;
    proof {
        assert(m * 60 + s == remaining_secs) by (nonlinear_arith)
            requires
                m == remaining_secs / 60,
                s == remaining_secs % 60,
        ;
    }
    (m, s)
}

} // verus!
