//! Player feedback for a redaction: which kind it is, which sound it
//! plays, and how long the floating marker object lives.

use vstd::prelude::*;
use crate::audio::Sounds;
use crate::timer::CountdownTimer;

verus! {

/// The two kinds of feedback a redaction can earn.
#[derive(Clone, Copy, PartialEq, Eq, Structural, Debug)]
pub enum Feedbacks {
    Correct,
    Wrong,
}

/// The sound a feedback event plays.
pub fn feedback_sound(f: Feedbacks) -> (s: Sounds)
    ensures
        f == Feedbacks::Correct ==> s == Sounds::Correct,
        f == Feedbacks::Wrong ==> s == Sounds::Wrong,
{
    match f {
        Feedbacks::Correct => Sounds::Correct,
        Feedbacks::Wrong => Sounds::Wrong,
    }
}

/// A spawned feedback marker: it drifts and fades until its lifetime runs
/// out, then it is despawned.
pub struct FeedbackObject {
    timer: CountdownTimer,
}

impl FeedbackObject {
    pub closed spec fn well_formed(&self) -> bool {
        self.timer.well_formed()
    }

    /// Milliseconds of lifetime left.
    pub closed spec fn spec_remaining_ms(&self) -> int {
        self.timer.spec_remaining_ms()
    }

    pub fn new(lifetime_ms: u64) -> (o: Self)
        ensures
            o.well_formed(),
            o.spec_remaining_ms() == lifetime_ms,
    {
        FeedbackObject { timer: CountdownTimer::new(lifetime_ms) }
    }

    /// Age the marker by one frame; it expires exactly when its lifetime
    /// is used up.
    pub fn tick(&mut self, delta_ms: u64) -> (expired: bool)
        requires
            old(self).well_formed(),
        ensures
            final(self).well_formed(),
            final(self).spec_remaining_ms() == if delta_ms <= old(self).spec_remaining_ms() {
                old(self).spec_remaining_ms() - delta_ms
            } else {
                0
            },
            expired == (final(self).spec_remaining_ms() == 0),
    {
        self.timer.tick(delta_ms);
        self.timer.is_finished()
    }
}

} // verus!
