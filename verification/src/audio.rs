//! Sound identifiers and the bookkeeping for the one looping sound slot.
//!
//! The presentation layer owns the audio clips; the library only decides
//! which sound an event asks for and whether a loop is currently playing.

use vstd::prelude::*;

verus! {

/// Every sound effect of the game.
#[derive(Clone, Copy, PartialEq, Eq, Structural, Debug, Hash)]
pub enum Sounds {
    VineBoom,
    MarkerDrag,
    Slurp,
    Correct,
    Wrong,
    GlassCrack,
    GlassShatter,
    Mob,
}

/// A request to play one sound, once or as a loop.
#[derive(Clone, Copy, PartialEq, Eq, Structural, Debug)]
pub struct SoundEvent {
    pub sound: Sounds,
    pub looped: bool,
}

/// Tracks whether a looping sound is currently playing; at most one loop
/// is live at a time.
pub struct SoundBank {
    pub looping: bool,
}

impl SoundBank {
    pub fn new() -> (b: Self)
        ensures
            !b.looping,
    {
        SoundBank { looping: false }
    }

    /// Record that `ev` started playing: a looped event occupies the loop
    /// slot, a one-shot leaves it as it was.
    pub fn note_played(&mut self, ev: &SoundEvent)
        ensures
            final(self).looping == (old(self).looping || ev.looped),
    {
        if ev.looped {
            self.looping = true;
        }
    }

    /// Record that the looping sound was stopped.
    pub fn note_stopped(&mut self)
        ensures
            !final(self).looping,
    {
        self.looping = false;
    }
}

/// What the per-frame loop audit asks the player side to do.
#[derive(Clone, Copy, PartialEq, Eq, Structural, Debug)]
pub enum LoopCommand {
    /// Start looping this sound.
    Start(Sounds),
    /// Stop the playing loop.
    Stop,
    /// Leave the loop slot as it is.
    Keep,
}

} // verus!
