use vstd::prelude::*;

verus! {

/// The numbers a level's arena is built from.
#[derive(Debug, Clone, Copy, PartialEq, Eq)]
pub struct LevelPlan {
    pub n_walls: u16,
    pub n_enemies: u16,
    pub factor: u16,
    pub div_factor: u16,
}

/// `v` held within `lo..=hi`.
pub open spec fn clamped(v: int, lo: int, hi: int) -> int {
    if v < lo { lo } else if v > hi { hi } else { v }
}

/// The plan of level `lvl`: one enemy more per level up to eight, half as
/// many walls again (at least one, at most nine), wall length growing with
/// the level modulo five, and the wall pattern changing with it.
pub open spec fn plan_of(lvl: u16) -> LevelPlan {
    let n_enemies = clamped(lvl as int, 1, 8);
    LevelPlan {
        n_walls: clamped(n_enemies * 3 / 2, 1, 9) as u16,
        n_enemies: n_enemies as u16,
        factor: clamped((lvl % 5) as int, 1, 4) as u16,
        div_factor: ((if lvl + 3 > u16::MAX { u16::MAX as int } else { lvl + 3 }) % 5) as u16,
    }
}

/// `v` held within `lo..=hi`, as `u16::clamp` does.
fn clamp16(v: u16, lo: u16, hi: u16) -> (r: u16)
    requires
        lo <= hi,
    ensures
        r == clamped(v as int, lo as int, hi as int),
{
    if v < lo {
        lo
    } else if v > hi {
        hi
    } else {
        v
    }
}

pub fn level_plan(lvl: u16) -> (plan: LevelPlan)
    ensures
        plan == plan_of(lvl),
{
    let n_enemies = clamp16(lvl, 1, 8);
    let n_walls = clamp16(n_enemies * 3 / 2, 1, 9);
    let factor = clamp16(lvl % 5, 1, 4);
    let div_factor = (lvl.saturating_add(3)) % 5;
    LevelPlan { n_walls, n_enemies, factor, div_factor }
}

/// What follows a round of level `lvl`: the game goes on only when the
/// round asked to restart and ended without error, one level up (never past
/// `u16::MAX`) when every enemy was destroyed, the same level otherwise.
pub fn next_level(lvl: u16, restarting: bool, run_ok: bool, enemies_left: bool) -> (next: Option<u16>)
    ensures
        !(restarting && run_ok) ==> next is None,
        restarting && run_ok && enemies_left ==> next == Some(lvl),
        restarting && run_ok && !enemies_left ==> next == Some(
            (if lvl < u16::MAX { lvl + 1 } else { lvl as int }) as u16,
        ),
{
    if !(restarting && run_ok) {
        None
    } else if !enemies_left {
        Some(lvl.saturating_add(1))
    } else {
        Some(lvl)
    }
}

} // verus!
