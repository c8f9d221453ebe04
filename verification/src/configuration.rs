//! The configuration that a match is played on, and its faults: a side that
//! the standings table does not list, a quality out of range, an identity
//! that a roster lists twice.

use crate::entities::{roster_of, MatchRecord, Player, TeamWithPlayers};
use crate::errors::SimulationError;
use vstd::prelude::*;

verus! {

/// The highest quality a player can have.
pub const MAX_QUALITY: u8 = 99;

/// The entry of `team` in the standings table: team 1 has the first entry.
pub open spec fn standing_of(standings: Seq<u32>, team: u32) -> Option<u32> {
    if 1 <= team <= standings.len() {
        Some(standings[team - 1])
    } else {
        None
    }
}

/// Whether the identity of the player at `place` stands earlier in the roster.
pub open spec fn listed_before(players: Seq<Player>, place: int) -> bool {
    exists|j: int| 0 <= j < place && players[j].id == players[place].id
}

/// The first fault of a roster, in roster order: a quality above
/// `MAX_QUALITY`, or an identity that an earlier player has. For one player
/// the quality is looked at first.
pub open spec fn roster_fault(team: u32, players: Seq<Player>) -> Option<SimulationError>
    decreases players.len(),
{
    if players.len() == 0 {
        None
    } else {
        match roster_fault(team, players.drop_last()) {
            Some(fault) => Some(fault),
            None => {
                if players.last().quality > MAX_QUALITY {
                    Some(SimulationError::QualityOutOfRange { team, player: players.last().id })
                } else if listed_before(players, players.len() - 1) {
                    Some(SimulationError::DuplicatePlayer { team, player: players.last().id })
                } else {
                    None
                }
            },
        }
    }
}

/// Whether every quality is at most `MAX_QUALITY` and no two players share
/// an identity.
pub open spec fn sound_roster(players: Seq<Player>) -> bool {
    &&& forall|i: int| 0 <= i < players.len() ==> (#[trigger] players[i]).quality <= MAX_QUALITY
    &&& forall|i: int, j: int|
        0 <= j < i < players.len() ==> (#[trigger] players[j]).id != (#[trigger] players[i]).id
}

/// A roster is without fault exactly when it is sound.
pub proof fn lemma_roster_without_fault(team: u32, players: Seq<Player>)
    ensures
        roster_fault(team, players) is None <==> sound_roster(players),
    decreases players.len(),
{
    if players.len() > 0 {
        let rest = players.drop_last();
        lemma_roster_without_fault(team, rest);
        assert forall|i: int| 0 <= i < rest.len() implies rest[i] == players[i] by {}
    }
}

/// Why a fixture cannot be played at all, if it cannot: a side without an
/// entry in the standings table, or a roster with a fault. The home side is
/// looked at before the away side, the table before the rosters.
pub open spec fn configuration_fault(
    teams: Seq<TeamWithPlayers>,
    game: MatchRecord,
    standings: Seq<u32>,
) -> Option<SimulationError> {
    if standing_of(standings, game.team_home) is None {
        Some(SimulationError::MissingStanding { team: game.team_home })
    } else if standing_of(standings, game.team_out) is None {
        Some(SimulationError::MissingStanding { team: game.team_out })
    } else if roster_fault(game.team_home, roster_of(teams, game.team_home)) is Some {
        roster_fault(game.team_home, roster_of(teams, game.team_home))
    } else {
        roster_fault(game.team_out, roster_of(teams, game.team_out))
    }
}

/// Looks up the entry of `team` in the standings table. Team 1 has the first
/// entry; a team without an entry is an error.
pub fn lookup_standing(standings: &Vec<u32>, team: u32) -> (entry: Result<u32, SimulationError>)
    ensures
        entry == match standing_of(standings@, team) {
            Some(standing) => Ok::<u32, SimulationError>(standing),
            None => Err(SimulationError::MissingStanding { team }),
        },
{
    if team >= 1 && team as usize <= standings.len() {
        Ok(standings[team as usize - 1])
    } else {
        Err(SimulationError::MissingStanding { team })
    }
}

/// Checks that every player of the roster has a quality of at most
/// `MAX_QUALITY` and an identity of their own. The first fault in roster
/// order is the error.
pub fn check_roster(team: u32, players: &Vec<Player>) -> (checked: Result<(), SimulationError>)
    ensures
        checked == match roster_fault(team, players@) {
            Some(fault) => Err::<(), SimulationError>(fault),
            None => Ok(()),
        },
        checked is Ok <==> sound_roster(players@),
{
    proof {
        lemma_roster_without_fault(team, players@);
    }
    let mut index: usize = 0;
    while index < players.len()
        invariant
            index <= players.len(),
            roster_fault(team, players@.take(index as int)) is None,
        decreases players.len() - index,
    {
        let ghost upto = players@.take(index + 1);
        proof {
            assert(upto.drop_last() == players@.take(index as int));
        }
        if players[index].quality > MAX_QUALITY {
            let fault = SimulationError::QualityOutOfRange { team, player: players[index].id };
            proof {
                lemma_fault_stays(team, players@, index + 1);
            }
            return Err(fault);
        }
        let mut earlier: usize = 0;
        while earlier < index
            invariant
                earlier <= index < players.len(),
                upto == players@.take(index + 1),
                roster_fault(team, upto.drop_last()) is None,
                upto.last() == players@[index as int],
                players@[index as int].quality <= MAX_QUALITY,
                forall|j: int| 0 <= j < earlier ==> players@[j].id != players@[index as int].id,
            decreases index - earlier,
        {
            if players[earlier].id == players[index].id {
                let fault = SimulationError::DuplicatePlayer { team, player: players[index].id };
                proof {
                    assert(upto[earlier as int].id == upto[index as int].id);
                    lemma_fault_stays(team, players@, index + 1);
                }
                return Err(fault);
            }
            earlier += 1;
        }
        proof {
        }
        index += 1;
    }
    proof {
        assert(players@.take(index as int) == players@);
    }
    Ok(())
}

/// A fault among the first players of a roster is the fault of the roster.
pub proof fn lemma_fault_stays(team: u32, players: Seq<Player>, count: int)
    requires
        0 <= count <= players.len(),
        roster_fault(team, players.take(count)) is Some,
    ensures
        roster_fault(team, players) == roster_fault(team, players.take(count)),
    decreases players.len() - count,
{
    if count < players.len() {
        assert(players.take(count + 1).drop_last() == players.take(count));
        lemma_fault_stays(team, players, count + 1);
    } else {
        assert(players.take(count) == players);
    }
}

} // verus!
