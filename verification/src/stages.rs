//! The escalation stages driven by elapsed session time: how many mob
//! members stand outside, and how cracked the window glass is. Both are
//! non-decreasing functions of elapsed time; the presentation layer only
//! picks sprites and textures by these numbers.

use vstd::prelude::*;
use vstd::arithmetic::div_mod::lemma_div_is_ordered;
use vstd::arithmetic::div_mod::lemma_div_multiples_vanish;
use vstd::arithmetic::mul::lemma_mul_inequality;
use vstd::arithmetic::mul::lemma_mul_is_commutative;

verus! {

/// The full mob, reached when the countdown runs out.
pub const MAX_MOB_MEMBERS: u32 = 32;

/// The glass-crack stage at which the window gives way and the mob
/// advances.
pub const GLASS_BREAK_STAGE: u32 = 9;

/// How many crack textures there are; stages count from zero.
pub const GLASS_STAGE_COUNT: u32 = 11;

/// The mob grows linearly with elapsed time, one member per
/// `1/MAX_MOB_MEMBERS` of the session.
pub open spec fn spec_mob_target(elapsed_ms: int, lifetime_ms: int) -> int
    recommends
        1 <= lifetime_ms,
{
    elapsed_ms * (MAX_MOB_MEMBERS as int) / lifetime_ms
}

/// How many mob members should stand outside after `elapsed_ms` of a
/// session `lifetime_ms` long.
pub fn mob_target(elapsed_ms: u64, lifetime_ms: u64) -> (t: u32)
    requires
        1 <= lifetime_ms,
        elapsed_ms <= lifetime_ms,
    ensures
        t == spec_mob_target(elapsed_ms as int, lifetime_ms as int),
        t <= MAX_MOB_MEMBERS,
{
    proof {
        lemma_mul_inequality(elapsed_ms as int, u64::MAX as int, MAX_MOB_MEMBERS as int);
    }
    let wide: u128 = (elapsed_ms as u128) * (MAX_MOB_MEMBERS as u128);
    let q: u128 = wide / (lifetime_ms as u128);
    proof {
        lemma_mul_inequality(elapsed_ms as int, lifetime_ms as int, MAX_MOB_MEMBERS as int);
        lemma_div_is_ordered(
            elapsed_ms as int * (MAX_MOB_MEMBERS as int),
            lifetime_ms as int * (MAX_MOB_MEMBERS as int),
            lifetime_ms as int,
        );
        lemma_mul_is_commutative(lifetime_ms as int, MAX_MOB_MEMBERS as int);
        lemma_div_multiples_vanish(MAX_MOB_MEMBERS as int, lifetime_ms as int);
    }
    q as u32
}

/// LAW: the mob never shrinks — more elapsed time never means a smaller
/// mob target.
pub proof fn lemma_mob_target_monotonic(e1: int, e2: int, lifetime_ms: int)
    requires
        0 <= e1 <= e2,
        1 <= lifetime_ms,
    ensures
        spec_mob_target(e1, lifetime_ms) <= spec_mob_target(e2, lifetime_ms),
{
    lemma_mul_inequality(e1, e2, MAX_MOB_MEMBERS as int);
    lemma_div_is_ordered(
        e1 * (MAX_MOB_MEMBERS as int),
        e2 * (MAX_MOB_MEMBERS as int),
        lifetime_ms,
    );
}

/// One more member is spawned this frame when fewer stand outside than
/// the target asks for.
pub fn mob_spawn_needed(current_members: usize, target: u32) -> (b: bool)
    ensures
        b == (current_members < target),
{
    (current_members as u64) < (target as u64)
}

/// The glass cracks linearly with elapsed time, capped at the last
/// texture.
pub open spec fn spec_glass_stage(elapsed_ms: int, lifetime_ms: int) -> int
    recommends
        1 <= lifetime_ms,
{
    let raw = elapsed_ms * (GLASS_STAGE_COUNT as int) / lifetime_ms;
    if raw < GLASS_STAGE_COUNT - 1 {
        raw
    } else {
        GLASS_STAGE_COUNT - 1
    }
}

/// Which crack texture the window shows after `elapsed_ms` of a session
/// `lifetime_ms` long.
pub fn glass_stage(elapsed_ms: u64, lifetime_ms: u64) -> (s: u32)
    requires
        1 <= lifetime_ms,
        elapsed_ms <= lifetime_ms,
    ensures
        s == spec_glass_stage(elapsed_ms as int, lifetime_ms as int),
        s < GLASS_STAGE_COUNT,
{
    proof {
        lemma_mul_inequality(elapsed_ms as int, u64::MAX as int, GLASS_STAGE_COUNT as int);
    }
    let wide: u128 = (elapsed_ms as u128) * (GLASS_STAGE_COUNT as u128);
    let raw: u128 = wide / (lifetime_ms as u128);
    if raw < (GLASS_STAGE_COUNT - 1) as u128 {
        raw as u32
    } else {
        GLASS_STAGE_COUNT - 1
    }
}

/// LAW: the glass never mends — more elapsed time never means an earlier
/// crack stage.
pub proof fn lemma_glass_stage_monotonic(e1: int, e2: int, lifetime_ms: int)
    requires
        0 <= e1 <= e2,
        1 <= lifetime_ms,
    ensures
        spec_glass_stage(e1, lifetime_ms) <= spec_glass_stage(e2, lifetime_ms),
{
    lemma_mul_inequality(e1, e2, GLASS_STAGE_COUNT as int);
    lemma_div_is_ordered(
        e1 * (GLASS_STAGE_COUNT as int),
        e2 * (GLASS_STAGE_COUNT as int),
        lifetime_ms,
    );
}

/// Whether the glass has broken: the mob advances from this stage on.
pub fn glass_broken(stage: u32) -> (b: bool)
    ensures
        b == (stage >= GLASS_BREAK_STAGE),
{
    stage >= GLASS_BREAK_STAGE
}

} // verus!
