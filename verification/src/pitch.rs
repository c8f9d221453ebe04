//! The rules of the field: which phase a field position is in, how open play
//! moves the ball, and when a shot goes in.
//!
//! The field position is an integer: 0 is the home goal line, 100 the away
//! goal line. The home side plays towards 100.

use crate::permille::{lemma_product_bound, scaled_floor, scaled_round};
use crate::sectors::{SectorStrengths, SectorTotals};
use vstd::prelude::*;

verus! {

/// The field position at the start of a match.
pub const KICK_OFF: i128 = 45;

/// The field position after a goal of the home side.
pub const RESTART_AFTER_HOME_GOAL: i128 = 55;

/// The field position after a goal of the away side.
pub const RESTART_AFTER_AWAY_GOAL: i128 = 45;

/// How far a repelled attack is thrown back towards midfield.
pub const REBOUND: i128 = 25;

/// The share of its midfield, in thousandths, that a side adds to its attack
/// or to its defense.
pub const MIDFIELD_SHARE: u128 = 330;

/// The largest sector strength that the rules are computed for: 2^80.
pub const MAX_SECTOR: u128 = 0x1_0000_0000_0000_0000_0000;

/// The largest play variance that the rules are computed for: 2^40.
pub const MAX_VARIANCE: u64 = 0x100_0000_0000;

/// The largest distance from zero of a field position that the rules are
/// computed for: 2^120.
pub const MAX_FIELD: i128 = 0x100_0000_0000_0000_0000_0000_0000_0000;

/// No minute of open play moves the ball by more than this: 2^112.
pub const MAX_EFFORT: u128 = 0x1_0000_0000_0000_0000_0000_0000_0000;

/// What a minute is spent on, by the field position it starts at.
#[derive(PartialEq, Eq, Structural, Clone, Copy, Debug)]
pub enum Phase {
    /// The home side attacks: the position is between 75 and 100.
    HomeAttacking,
    /// Both sides contest the midfield: the position is between 25 and 75.
    MidfieldContest,
    /// The away side attacks: the position is between 0 and 25.
    AwayAttacking,
    /// A shot is resolved: the position is beyond a goal line.
    GoalResolution,
    /// The position is exactly 0, 25, 75 or 100: nothing happens.
    Boundary,
}

/// The phase of a minute that starts at `field`. All bounds are strict.
pub open spec fn phase_at(field: int) -> Phase {
    if 75 < field < 100 {
        Phase::HomeAttacking
    } else if 25 < field < 75 {
        Phase::MidfieldContest
    } else if 0 < field < 25 {
        Phase::AwayAttacking
    } else if field > 100 || field < 0 {
        Phase::GoalResolution
    } else {
        Phase::Boundary
    }
}

/// A sector strength plus the midfield share of the midfield, rounded to the
/// nearest whole number.
pub open spec fn blend(sector: nat, midfield: nat) -> nat {
    (1000 * sector + MIDFIELD_SHARE as nat * midfield + 500) / 1000
}

/// What the home side puts into a minute of `phase`, under its play variance
/// in thousandths: attack in its own attack, midfield in the contest, defense
/// against an attack. Nothing outside open play.
pub open spec fn home_effort(phase: Phase, home: SectorTotals, variance: nat) -> nat {
    match phase {
        Phase::HomeAttacking => scaled_round(blend(home.attack, home.midfield), variance),
        Phase::MidfieldContest => scaled_round(home.midfield, variance),
        Phase::AwayAttacking => scaled_round(blend(home.defense, home.midfield), variance),
        _ => 0,
    }
}

/// What the away side puts into a minute of `phase`, under its play variance.
pub open spec fn away_effort(phase: Phase, away: SectorTotals, variance: nat) -> nat {
    match phase {
        Phase::HomeAttacking => scaled_round(blend(away.defense, away.midfield), variance),
        Phase::MidfieldContest => scaled_round(away.midfield, variance),
        Phase::AwayAttacking => scaled_round(blend(away.attack, away.midfield), variance),
        _ => 0,
    }
}

/// The field position after a contest at `field`: the ball moves by the
/// difference of the two efforts, towards the home goal where the away side
/// put in more, and towards the away goal where it did not.
pub open spec fn field_after_contest(field: int, home_effort: nat, away_effort: nat) -> int {
    if away_effort > home_effort {
        field - (away_effort - home_effort)
    } else {
        field + (home_effort - away_effort)
    }
}

/// The field position after a minute of play that starts at `field`: that
/// after the contest of the efforts that the phase of `field` asks of the two
/// sides. Outside open play there are no efforts, and the position stays.
pub open spec fn field_after_play(
    field: int,
    home: SectorTotals,
    away: SectorTotals,
    home_variance: nat,
    away_variance: nat,
) -> int {
    field_after_contest(
        field,
        home_effort(phase_at(field), home, home_variance),
        away_effort(phase_at(field), away, away_variance),
    )
}

/// Whether a shot goes in: the pick is above the keeper's strength under the
/// goal variance, in thousandths.
pub open spec fn shot_scores(goal_pick: nat, keeper: nat, goal_variance: nat) -> bool {
    goal_pick > scaled_round(keeper, goal_variance)
}

/// The field position after a repelled shot from `field`.
pub open spec fn field_after_rebound(field: int) -> int {
    if field > 100 {
        field - REBOUND
    } else {
        field + REBOUND
    }
}

/// The upper end of a side's play variance range, in thousandths: one, plus a
/// thousandth for each point of its standing under the standing factor.
pub open spec fn variance_ceiling(standing: u32, factor: u64) -> nat {
    1000 + scaled_floor(standing as nat, factor as nat)
}

impl SectorStrengths {
    /// Whether each strength is one that the rules are computed for.
    pub open spec fn within_limits(&self) -> bool {
        &&& self.attack <= MAX_SECTOR
        &&& self.midfield <= MAX_SECTOR
        &&& self.defense <= MAX_SECTOR
        &&& self.goalkeeping <= MAX_SECTOR
    }
}

/// The phases are told apart by the position alone: each open range has its
/// phase, beyond the goal lines a shot is resolved, and the four positions
/// 0, 25, 75 and 100 are in no phase of play.
pub proof fn lemma_phases_partition(field: int)
    ensures
        phase_at(field) == Phase::HomeAttacking <==> 75 < field < 100,
        phase_at(field) == Phase::MidfieldContest <==> 25 < field < 75,
        phase_at(field) == Phase::AwayAttacking <==> 0 < field < 25,
        phase_at(field) == Phase::GoalResolution <==> field > 100 || field < 0,
        phase_at(field) == Phase::Boundary <==> field == 0 || field == 25 || field == 75 || field
            == 100,
{
}

/// A minute that starts on 0, 25, 75 or 100 leaves the position where it is,
/// whatever the strengths and variances.
pub proof fn lemma_boundary_stays(
    field: int,
    home: SectorTotals,
    away: SectorTotals,
    home_variance: nat,
    away_variance: nat,
)
    requires
        field == 0 || field == 25 || field == 75 || field == 100,
    ensures
        field_after_play(field, home, away, home_variance, away_variance) == field,
{
}

/// The phase of a minute that starts at `field`.
pub fn phase_of(field: i128) -> (phase: Phase)
    ensures
        phase == phase_at(field as int),
{
    if 75 < field && field < 100 {
        Phase::HomeAttacking
    } else if 25 < field && field < 75 {
        Phase::MidfieldContest
    } else if 0 < field && field < 25 {
        Phase::AwayAttacking
    } else if field > 100 || field < 0 {
        Phase::GoalResolution
    } else {
        Phase::Boundary
    }
}

/// A sector strength plus the midfield share of the midfield.
pub fn blended(sector: u128, midfield: u128) -> (sum: u128)
    requires
        sector <= MAX_SECTOR,
        midfield <= MAX_SECTOR,
    ensures
        sum == blend(sector as nat, midfield as nat),
        sum <= 2 * MAX_SECTOR,
{
    (1000 * sector + MIDFIELD_SHARE * midfield + 500) / 1000
}

/// A strength under a variance in thousandths, within the limits.
fn under_variance(strength: u128, variance: u64) -> (effort: u128)
    requires
        strength <= 2 * MAX_SECTOR,
        variance <= MAX_VARIANCE,
    ensures
        effort == scaled_round(strength as nat, variance as nat),
        effort <= MAX_EFFORT,
{
    proof {
        lemma_product_bound(
            strength as nat,
            variance as nat,
            2 * MAX_SECTOR as nat,
            MAX_VARIANCE as nat,
        );
    }
    (strength * (variance as u128) + 500) / 1000
}

/// The field position after a contest at `field` with these efforts.
pub fn contest(field: i128, home_effort: u128, away_effort: u128) -> (after: i128)
    requires
        -MAX_FIELD <= field <= MAX_FIELD,
        home_effort <= MAX_EFFORT,
        away_effort <= MAX_EFFORT,
    ensures
        after == field_after_contest(field as int, home_effort as nat, away_effort as nat),
        after == field + home_effort - away_effort,
{
    if away_effort > home_effort {
        field - ((away_effort - home_effort) as i128)
    } else {
        field + ((home_effort - away_effort) as i128)
    }
}

/// The field position after a minute of play that starts at `field`, with
/// the strengths and play variances of the two sides in that minute.
pub fn play_on(
    field: i128,
    home: &SectorStrengths,
    away: &SectorStrengths,
    home_variance: u64,
    away_variance: u64,
) -> (after: i128)
    requires
        -MAX_FIELD <= field <= MAX_FIELD,
        home.within_limits(),
        away.within_limits(),
        home_variance <= MAX_VARIANCE,
        away_variance <= MAX_VARIANCE,
    ensures
        after == field_after_play(
            field as int,
            home@,
            away@,
            home_variance as nat,
            away_variance as nat,
        ),
        field - MAX_EFFORT <= after <= field + MAX_EFFORT,
{
    let (home_effort, away_effort) = match phase_of(field) {
        Phase::HomeAttacking => (
            under_variance(blended(home.attack, home.midfield), home_variance),
            under_variance(blended(away.defense, away.midfield), away_variance),
        ),
        Phase::MidfieldContest => (
            under_variance(home.midfield, home_variance),
            under_variance(away.midfield, away_variance),
        ),
        Phase::AwayAttacking => (
            under_variance(blended(home.defense, home.midfield), home_variance),
            under_variance(blended(away.attack, away.midfield), away_variance),
        ),
        _ => (0, 0),
    };
    contest(field, home_effort, away_effort)
}

/// Whether a shot goes in against a keeper of strength `keeper`.
pub fn shot_goes_in(goal_pick: u64, keeper: u128, goal_variance: u64) -> (scores: bool)
    requires
        keeper <= MAX_SECTOR,
        goal_variance <= MAX_VARIANCE,
    ensures
        scores == shot_scores(goal_pick as nat, keeper as nat, goal_variance as nat),
{
    (goal_pick as u128) > under_variance(keeper, goal_variance)
}

/// The field position after a repelled shot from `field`.
pub fn rebound_from(field: i128) -> (after: i128)
    requires
        -MAX_FIELD <= field <= MAX_FIELD,
    ensures
        after == field_after_rebound(field as int),
{
    if field > 100 {
        field - REBOUND
    } else {
        field + REBOUND
    }
}

/// The upper end of the play variance range of a side with `standing` in the
/// table, under the standing factor of the minute.
pub fn variance_ceiling_of(standing: u32, factor: u64) -> (ceiling: u64)
    requires
        factor <= u32::MAX,
    ensures
        ceiling == variance_ceiling(standing, factor),
        1000 <= ceiling <= 1000 + (0xffff_ffff * factor) / 1000,
{
    proof {
        lemma_product_bound(standing as nat, factor as nat, 0xffff_ffff, 0xffff_ffff);
        lemma_product_bound(standing as nat, factor as nat, 0xffff_ffff, factor as nat);
    }
    1000 + ((standing as u64) * factor) / 1000
}

} // verus!
