//! The progression table: from experience to level.

use crate::msg::Level;
use crate::seqs::{first_index, lemma_first_index, lemma_first_index_is};
use vstd::prelude::*;

verus! {

/// The test whether a step of the table lies above the experience `xp`.
pub open spec fn above(xp: nat) -> spec_fn(Level) -> bool {
    |step: Level| step.xp_needed > xp
}

/// The level attained with the experience `xp`: one below the level of the
/// first step that lies above `xp`. There is none where no step lies above
/// `xp`, or where that step is level zero.
pub open spec fn attained_level(levels: Seq<Level>, xp: nat) -> Option<u16> {
    let i = first_index(levels, above(xp));
    if i < levels.len() && levels[i].level >= 1 {
        Some((levels[i].level - 1) as u16)
    } else {
        None
    }
}

/// The level of a token that stands at `level` once its experience is `xp`:
/// below the cap the level attained with `xp`, at or above the cap the
/// level as it is.
pub open spec fn next_level(levels: Seq<Level>, cap: u16, level: u16, xp: nat) -> Option<u16> {
    if level < cap {
        attained_level(levels, xp)
    } else {
        Some(level)
    }
}

/// A table in which later steps ask for no less experience and give no
/// lower level.
pub open spec fn ascending(levels: Seq<Level>) -> bool {
    forall|i: int, j: int|
        0 <= i <= j < levels.len() ==> (#[trigger] levels[i]).xp_needed <= (
        #[trigger] levels[j]).xp_needed && levels[i].level <= levels[j].level
}

/// The level attained with the experience `xp`.
pub fn level_for(levels: &Vec<Level>, xp: u32) -> (r: Option<u16>)
    ensures
        r == attained_level(levels@, xp as nat),
{
    let ghost p = above(xp as nat);
    let mut i: usize = 0;
    while i < levels.len()
        invariant
            i <= levels.len(),
            p == above(xp as nat),
            forall|j: int| 0 <= j < i ==> !p(#[trigger] levels@[j]),
        decreases levels.len() - i,
    {
        if levels[i].xp_needed > xp {
            proof {
                lemma_first_index_is(levels@, p, i as int);
            }
            if levels[i].level >= 1 {
                return Some(levels[i].level - 1);
            } else {
                return None;
            }
        }
        i = i + 1;
    }
    proof {
        lemma_first_index_is(levels@, p, levels.len() as int);
    }
    None
}

/// The level of a token that stands at `level` once its experience is `xp`.
/// At or above the cap the table is not consulted.
pub fn recompute_level(levels: &Vec<Level>, cap: u16, level: u16, xp: u32) -> (r: Option<u16>)
    ensures
        r == next_level(levels@, cap, level, xp as nat),
        level >= cap ==> r == Some(level),
{
    if level < cap {
        level_for(levels, xp)
    } else {
        Some(level)
    }
}

/// In an ascending table more experience never attains a lower level.
pub proof fn lemma_attained_level_monotone(levels: Seq<Level>, xp: nat, more: nat)
    requires
        ascending(levels),
        xp <= more,
        attained_level(levels, xp) is Some,
        attained_level(levels, more) is Some,
    ensures
        attained_level(levels, xp).unwrap() <= attained_level(levels, more).unwrap(),
{
    lemma_first_index(levels, above(xp));
    lemma_first_index(levels, above(more));
    let i = first_index(levels, above(xp));
    let j = first_index(levels, above(more));
    if j < i {
        assert(above(xp)(levels[j]));
        assert(!above(xp)(levels[j]));
    }
}

/// A level never goes down: where the level that the table gives for the
/// new experience is not below the present one, or the present level has
/// reached the cap, the next level is at least the present level.
pub proof fn lemma_level_never_decreases(levels: Seq<Level>, cap: u16, level: u16, xp: nat)
    requires
        next_level(levels, cap, level, xp) is Some,
        level >= cap || attained_level(levels, xp).unwrap() >= level,
    ensures
        next_level(levels, cap, level, xp).unwrap() >= level,
        level >= cap ==> next_level(levels, cap, level, xp) == Some(level),
{
}

/// With an ascending table, a token whose level is the one attained with
/// its experience keeps or raises its level when it gains experience.
pub proof fn lemma_gain_keeps_level(levels: Seq<Level>, cap: u16, xp: nat, gained: nat)
    requires
        ascending(levels),
        attained_level(levels, xp) is Some,
        next_level(levels, cap, attained_level(levels, xp).unwrap(), xp + gained) is Some,
    ensures
        next_level(levels, cap, attained_level(levels, xp).unwrap(), xp + gained).unwrap()
            >= attained_level(levels, xp).unwrap(),
{
    let level = attained_level(levels, xp).unwrap();
    if level < cap {
        lemma_attained_level_monotone(levels, xp, xp + gained);
    }
}

} // verus!
