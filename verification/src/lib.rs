//! Core logic of a small "redact the document" desk game: greedy word-wrap
//! of marked-up source text into fixed-size pages, per-character redaction
//! tracking and scoring, a countdown clock with a penalty for wrong
//! redactions, and the derived stage values (mob size, glass cracks) that
//! the presentation layer selects assets with.

use vstd::prelude::*;

pub mod audio;
pub mod feedback;
pub mod layout;
pub mod menu;
pub mod paper;
pub mod pen;
pub mod stages;
pub mod text;
pub mod timer;

pub use timer::CountdownTimer;

verus! {

/// Top-level session state: loading assets, at the menu, playing, or at the
/// end screen.
#[derive(Clone, Copy, PartialEq, Eq, Structural, Debug, Hash)]
pub enum GameState {
    LOADING,
    MENU,
    PLAYING,
    END,
}

impl Default for GameState {
    fn default() -> (s: Self)
        ensures
            s == GameState::LOADING,
    {
        GameState::LOADING
    }
}

} // verus!
