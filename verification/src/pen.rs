//! The marker prop: ink supply, whether it can draw, the next-page button
//! it presses, and the looping sounds its state selects.
//!
//! All geometry (where the pen tip is, distances to the ink reservoir and
//! the button) is the presentation layer's business; it hands the library
//! plain booleans for "the tip is down" and "the tip is near ...".

use vstd::prelude::*;
use crate::audio::LoopCommand;
use crate::audio::SoundBank;
use crate::audio::Sounds;

verus! {

/// The marker prop's logical state.
#[derive(Clone, Copy, PartialEq, Eq, Structural, Debug)]
pub struct Marker {
    /// The tip is down on something (the mouse button is held and the cast
    /// ray hit a surface).
    pub tip_active: bool,
    /// Ink is left and the cap is off: redactions count.
    pub can_draw: bool,
    /// The tip is off the page (over the desk).
    pub off_page: bool,
}

impl Default for Marker {
    fn default() -> (m: Self)
        ensures
            !m.tip_active,
            !m.can_draw,
            !m.off_page,
    {
        Marker { tip_active: false, can_draw: false, off_page: false }
    }
}

/// Ink supply as a whole-number percentage, and whether the pen is
/// currently refilling at the reservoir.
#[derive(Clone, Copy, PartialEq, Eq, Structural, Debug)]
pub struct InkSupplyPercent(pub u32, pub bool);

/// Refill audit: while the tip is held near the ink reservoir the supply
/// grows one percent per tick and the pen counts as refilling.
pub fn check_refill(marker: &Marker, ink: &mut InkSupplyPercent, near_reservoir: bool)
    ensures
        marker.tip_active && near_reservoir ==> final(ink).0 == (if old(ink).0 < u32::MAX {
            old(ink).0 + 1
        } else {
            old(ink).0 as int
        }) && final(ink).1,
        marker.tip_active && !near_reservoir ==> final(ink).0 == old(ink).0 && !final(ink).1,
        !marker.tip_active ==> *final(ink) == *old(ink),
{
    if marker.tip_active {
        if near_reservoir {
            if ink.0 < u32::MAX {
                ink.0 = ink.0 + 1;
            }
            ink.1 = true;
        } else {
            ink.1 = false;
        }
    }
}

/// The pen can draw exactly when ink is left and the cap animation is not
/// the capped one (animation index zero).
pub fn can_draw_check(marker: &mut Marker, ink: &InkSupplyPercent, current_animation: usize)
    ensures
        final(marker).can_draw == (ink.0 > 0 && current_animation != 0),
        final(marker).tip_active == old(marker).tip_active,
        final(marker).off_page == old(marker).off_page,
{
    if ink.0 == 0 {
        marker.can_draw = false;
    } else if current_animation == 0 {
        marker.can_draw = false;
    } else {
        marker.can_draw = true;
    }
}

/// Releasing the mouse lifts the pen: it leaves the page and stops
/// refilling. While the button is held nothing changes here.
pub fn pen_drop(marker: &mut Marker, ink: &mut InkSupplyPercent, pressed: bool)
    ensures
        pressed ==> *final(marker) == *old(marker) && *final(ink) == *old(ink),
        !pressed ==> *final(marker) == (Marker {
            tip_active: old(marker).tip_active,
            can_draw: old(marker).can_draw,
            off_page: true,
        }) && *final(ink) == (InkSupplyPercent(old(ink).0, false)),
{
    if !pressed {
        marker.off_page = true;
        ink.1 = false;
    }
}

/// The next animation in the cycle: one past `current`, wrapping to the
/// first.
pub fn next_animation(current: usize, count: usize) -> (r: usize)
    requires
        1 <= count,
        current < count,
    ensures
        r == (current + 1) % (count as int),
        r < count,
{
    if current + 1 == count {
        proof {
            vstd::arithmetic::div_mod::lemma_mod_self_0(count as int);
        }
        0
    } else {
        proof {
            vstd::arithmetic::div_mod::lemma_small_mod((current + 1) as nat, count as nat);
        }
        current + 1
    }
}

/// The state of the proximity-triggered next-page button.
#[derive(Clone, Copy, PartialEq, Eq, Structural, Debug)]
pub struct GoNextPage {
    /// The page should advance this frame.
    pub go: bool,
    /// The button is re-armed (it fires at most once per mouse press).
    pub can_go: bool,
}

impl GoNextPage {
    /// Button audit: with the pen tip down, the button fires when the tip
    /// is near it and the button is armed, and firing disarms it; lifting
    /// the mouse button re-arms it.
    pub fn check_button(&mut self, marker: &Marker, near_button: bool, just_released: bool)
        ensures
            final(self).go == (if marker.tip_active {
                near_button && old(self).can_go
            } else {
                old(self).go
            }),
            final(self).can_go == (if just_released {
                true
            } else if marker.tip_active && near_button && old(self).can_go {
                false
            } else {
                old(self).can_go
            }),
    {
        if marker.tip_active {
            if near_button && self.can_go {
                self.go = true;
                self.can_go = false;
            } else {
                self.go = false;
            }
        }
        if just_released {
            self.can_go = true;
        }
    }
}

/// What the loop-sound audit decides, as a function of the pen state.
pub open spec fn spec_loop_command(
    refilling: bool,
    off_page: bool,
    can_draw: bool,
    looping: bool,
) -> LoopCommand {
    if refilling {
        if looping {
            LoopCommand::Keep
        } else {
            LoopCommand::Start(Sounds::Slurp)
        }
    } else if !off_page && can_draw {
        if looping {
            LoopCommand::Keep
        } else {
            LoopCommand::Start(Sounds::MarkerDrag)
        }
    } else {
        if looping {
            LoopCommand::Stop
        } else {
            LoopCommand::Keep
        }
    }
}

/// Loop-sound audit: refilling loops the slurp, drawing on the page loops
/// the marker drag, anything else stops a playing loop. A loop already
/// playing is left alone.
pub fn handle_sound_loops(marker: &Marker, ink: &InkSupplyPercent, bank: &SoundBank) -> (cmd:
    LoopCommand)
    ensures
        cmd == spec_loop_command(ink.1, marker.off_page, marker.can_draw, bank.looping),
{
    if ink.1 {
        if bank.looping {
            LoopCommand::Keep
        } else {
            LoopCommand::Start(Sounds::Slurp)
        }
    } else if !marker.off_page && marker.can_draw {
        if bank.looping {
            LoopCommand::Keep
        } else {
            LoopCommand::Start(Sounds::MarkerDrag)
        }
    } else {
        if bank.looping {
            LoopCommand::Stop
        } else {
            LoopCommand::Keep
        }
    }
}

} // verus!
