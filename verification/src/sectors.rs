//! The sector aggregator: what a roster is worth, sector by sector, in one
//! simulated minute.

use crate::entities::{Player, Position};
use crate::permille::{lemma_product_bound, lemma_scaled_round_monotonic, scaled_round};
use crate::random::{drawn_values, state_after_draws, RandomSource};
use vstd::prelude::*;

verus! {

/// The strength of one side in one minute, sector by sector.
#[derive(PartialEq, Eq, Structural, Clone, Copy, Debug)]
pub struct SectorStrengths {
    pub attack: u128,
    pub midfield: u128,
    pub defense: u128,
    pub goalkeeping: u128,
}

/// The mathematical value of a side's strengths.
pub struct SectorTotals {
    pub attack: nat,
    pub midfield: nat,
    pub defense: nat,
    pub goalkeeping: nat,
}

impl View for SectorStrengths {
    type V = SectorTotals;

    open spec fn view(&self) -> SectorTotals {
        SectorTotals {
            attack: self.attack as nat,
            midfield: self.midfield as nat,
            defense: self.defense as nat,
            goalkeeping: self.goalkeeping as nat,
        }
    }
}

impl SectorTotals {
    /// The sector that players of `role` count towards; nothing for a player
    /// who is not on the field.
    pub open spec fn of_role(self, role: Position) -> nat {
        match role {
            Position::Attacker => self.attack,
            Position::Midfield => self.midfield,
            Position::Defender => self.defense,
            Position::Goalkeeper => self.goalkeeping,
            Position::NotOnTheField => 0,
        }
    }
}

/// A player's quality under a noise factor in thousandths: their product,
/// rounded to the nearest whole number.
pub open spec fn noised(quality: u8, noise: u64) -> nat {
    scaled_round(quality as nat, noise as nat)
}

/// The sum of the noised qualities of the players of `role`. The player at
/// place `i` has the noise `noises[i]`.
pub open spec fn role_total(players: Seq<Player>, noises: Seq<u64>, role: Position) -> nat
    recommends
        noises.len() == players.len(),
    decreases players.len(),
{
    if players.len() == 0 {
        0
    } else {
        role_total(players.drop_last(), noises.drop_last(), role) + if players.last().position
            == role {
            noised(players.last().quality, noises.last())
        } else {
            0
        }
    }
}

/// The noised quality of the last goalkeeper in the roster; zero without one.
pub open spec fn keeper_score(players: Seq<Player>, noises: Seq<u64>) -> nat
    recommends
        noises.len() == players.len(),
    decreases players.len(),
{
    if players.len() == 0 {
        0
    } else if players.last().position == Position::Goalkeeper {
        noised(players.last().quality, noises.last())
    } else {
        keeper_score(players.drop_last(), noises.drop_last())
    }
}

/// The strengths of a roster under the given noise factors: attackers,
/// midfielders and defenders add up in their sectors, the last goalkeeper
/// alone stands for goalkeeping, and a player who is not on the field counts
/// for nothing.
pub open spec fn sector_totals(players: Seq<Player>, noises: Seq<u64>) -> SectorTotals
    recommends
        noises.len() == players.len(),
{
    SectorTotals {
        attack: role_total(players, noises, Position::Attacker),
        midfield: role_total(players, noises, Position::Midfield),
        defense: role_total(players, noises, Position::Defender),
        goalkeeping: keeper_score(players, noises),
    }
}

/// Whether no player of the roster has `role`.
pub open spec fn no_player_of(players: Seq<Player>, role: Position) -> bool {
    forall|i: int| 0 <= i < players.len() ==> (#[trigger] players[i]).position != role
}

/// A role that no player of the roster has is worth nothing in its sector,
/// whatever the noise.
pub proof fn lemma_absent_role_is_zero(players: Seq<Player>, noises: Seq<u64>, role: Position)
    requires
        no_player_of(players, role),
    ensures
        sector_totals(players, noises).of_role(role) == 0,
    decreases players.len(),
{
    if players.len() > 0 {
        let rest = players.drop_last();
        lemma_absent_role_is_zero(rest, noises.drop_last(), role);
    }
}

/// An empty roster is worth nothing in every sector.
pub proof fn lemma_empty_roster_is_zero(noises: Seq<u64>)
    ensures
        sector_totals(Seq::<Player>::empty(), noises) == (SectorTotals {
            attack: 0,
            midfield: 0,
            defense: 0,
            goalkeeping: 0,
        }),
{
}

/// With every noise factor below `cap`, no sector is worth more than the
/// number of players times the most that one player can be worth.
pub proof fn lemma_totals_bounded(players: Seq<Player>, noises: Seq<u64>, cap: u64)
    requires
        noises.len() == players.len(),
        forall|i: int| 0 <= i < noises.len() ==> #[trigger] noises[i] <= cap,
    ensures
        role_total(players, noises, Position::Attacker) <= players.len() * noised(255, cap),
        role_total(players, noises, Position::Midfield) <= players.len() * noised(255, cap),
        role_total(players, noises, Position::Defender) <= players.len() * noised(255, cap),
        keeper_score(players, noises) <= noised(255, cap),
    decreases players.len(),
{
    if players.len() > 0 {
        let rest = players.drop_last();
        let rest_noises = noises.drop_last();
        lemma_totals_bounded(rest, rest_noises, cap);
        lemma_scaled_round_monotonic(
            players.last().quality as nat,
            noises.last() as nat,
            255,
            cap as nat,
        );
        assert(players.len() * noised(255, cap) == rest.len() * noised(255, cap) + noised(
            255,
            cap,
        )) by (nonlinear_arith)
            requires
                players.len() == rest.len() + 1,
        ;
    }
}

/// Strengths that are bounded by a number of players times a cap of at most
/// sixteen bits are within the limits that the rules of play are computed
/// for.
pub proof fn lemma_strengths_fit(strengths: SectorStrengths, count: nat, cap: nat)
    requires
        count <= usize::MAX,
        cap <= 0xffff,
        strengths.attack <= count * cap,
        strengths.midfield <= count * cap,
        strengths.defense <= count * cap,
        strengths.goalkeeping <= cap,
    ensures
        strengths.within_limits(),
{
    lemma_product_bound(count, cap, 0xffff_ffff_ffff_ffff, 0xffff);
}

/// The quality of a player under a noise factor in thousandths.
pub fn noised_quality(quality: u8, noise: u64) -> (score: u64)
    ensures
        score == noised(quality, noise),
        score <= 0x7fff_ffff_ffff_ffff,
{
    proof {
        lemma_product_bound(
            quality as nat,
            noise as nat,
            255,
            0xffff_ffff_ffff_ffff,
        );
    }
    let product: u128 = (quality as u128) * (noise as u128) + 500;
    (product / 1000) as u64
}

/// The strengths of `players` where the player at place `i` has the noise
/// factor `noises[i]`, in thousandths.
pub fn aggregate_with(players: &Vec<Player>, noises: &Vec<u64>) -> (strengths: SectorStrengths)
    requires
        noises.len() == players.len(),
    ensures
        strengths@ == sector_totals(players@, noises@),
        forall|role: Position| #[trigger]
            no_player_of(players@, role) ==> strengths@.of_role(role) == 0,
{
    proof {
        assert forall|role: Position| #[trigger] no_player_of(players@, role) implies sector_totals(
            players@,
            noises@,
        ).of_role(role) == 0 by {
            lemma_absent_role_is_zero(players@, noises@, role);
        }
    }
    let mut strengths = SectorStrengths { attack: 0, midfield: 0, defense: 0, goalkeeping: 0 };
    let mut index: usize = 0;
    while index < players.len()
        invariant
            noises.len() == players.len(),
            index <= players.len(),
            strengths@ == sector_totals(players@.take(index as int), noises@.take(index as int)),
            strengths.attack <= index * 0x7fff_ffff_ffff_ffff,
            strengths.midfield <= index * 0x7fff_ffff_ffff_ffff,
            strengths.defense <= index * 0x7fff_ffff_ffff_ffff,
        decreases players.len() - index,
    {
        proof {
            assert(players@.take(index + 1).drop_last() == players@.take(index as int));
            assert(noises@.take(index + 1).drop_last() == noises@.take(index as int));
        }
        let score = noised_quality(players[index].quality, noises[index]) as u128;
        match players[index].position {
            Position::Attacker => {
                strengths.attack = strengths.attack + score;
            },
            Position::Midfield => {
                strengths.midfield = strengths.midfield + score;
            },
            Position::Defender => {
                strengths.defense = strengths.defense + score;
            },
            Position::Goalkeeper => {
                strengths.goalkeeping = score;
            },
            Position::NotOnTheField => {},
        }
        index += 1;
    }
    proof {
        assert(players@.take(index as int) == players@);
        assert(noises@.take(index as int) == noises@);
    }
    strengths
}

/// The strengths of `players` in one minute: each player, in roster order,
/// gets a noise factor drawn from `low..high` thousandths. The strengths are
/// those of the roster under some noise factors from that range, one for
/// each player; which ones, the random source decides.
pub fn aggregate(
    players: &Vec<Player>,
    source: &mut RandomSource,
    low: u64,
    high: u64,
) -> (strengths: SectorStrengths)
    requires
        low < high,
    ensures
        strengths@ == sector_totals(
            players@,
            drawn_values(old(source).state(), players@.len(), low, high),
        ),
        final(source).state() == state_after_draws(
            old(source).state(),
            players@.len(),
            low,
            high,
        ),
        exists|noises: Seq<u64>|
            {
                &&& noises.len() == players@.len()
                &&& forall|i: int| 0 <= i < noises.len() ==> low <= #[trigger] noises[i] < high
                &&& strengths@ == sector_totals(players@, noises)
            },
        forall|role: Position| #[trigger]
            no_player_of(players@, role) ==> strengths@.of_role(role) == 0,
        strengths.attack <= players@.len() * noised(255, high),
        strengths.midfield <= players@.len() * noised(255, high),
        strengths.defense <= players@.len() * noised(255, high),
        strengths.goalkeeping <= noised(255, high),
{
    let noises = source.draw_many(players.len(), low, high);
    proof {
        lemma_totals_bounded(players@, noises@, high);
    }
    aggregate_with(players, &noises)
}

} // verus!
