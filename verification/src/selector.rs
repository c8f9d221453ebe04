//! The player selector: who is credited with a goal.
//!
//! The players of the wanted role are visited in roster order, round after
//! round. Each visit accepts its player with a fixed chance; the first player
//! accepted is selected. After `MAX_VISITS` refusals the first player of the
//! role is selected, so a selection always ends.

use crate::entities::{Player, Position, TeamWithPlayers};
use crate::errors::SelectionError;
use crate::random::{drawn_value, state_after_draw, RandomSource};
use vstd::prelude::*;

verus! {

/// A visit draws from `0..ACCEPTANCE_RANGE`.
pub const ACCEPTANCE_RANGE: u64 = 100;

/// A visit accepts its player when the draw is above this.
pub const ACCEPTANCE_THRESHOLD: u64 = 90;

/// The number of visits after which the first candidate is taken.
pub const MAX_VISITS: u32 = 1000;

/// Whether a visit with this draw accepts its player.
pub open spec fn accepts(draw: u64) -> bool {
    draw > ACCEPTANCE_THRESHOLD
}

/// The places in `players` of the players of `role`, in roster order.
pub open spec fn candidates(players: Seq<Player>, role: Position) -> Seq<int>
    decreases players.len(),
{
    if players.len() == 0 {
        Seq::empty()
    } else if players.last().position == role {
        candidates(players.drop_last(), role).push(players.len() - 1)
    } else {
        candidates(players.drop_last(), role)
    }
}

/// The outcome of visiting `count` candidates in rounds, from the candidate
/// `cursor` on, with `visits` visits left: which candidate is selected, and
/// the state of the random source afterwards.
pub open spec fn selection(state: Seq<u8>, count: nat, cursor: nat, visits: nat) -> (nat, Seq<u8>)
    decreases visits,
{
    if visits == 0 {
        (0, state)
    } else {
        let draw = drawn_value(state, 0, ACCEPTANCE_RANGE);
        let next = state_after_draw(state, 0, ACCEPTANCE_RANGE);
        if accepts(draw) {
            (cursor, next)
        } else {
            selection(next, count, (cursor + 1) % count, (visits - 1) as nat)
        }
    }
}

/// The player of `role` that a selection among the `players` of `team` gives
/// with the random source in state `state`; an error where no player has the
/// role.
pub open spec fn selected_player(
    team: u32,
    players: Seq<Player>,
    role: Position,
    state: Seq<u8>,
) -> Result<Player, SelectionError> {
    let places = candidates(players, role);
    if places.len() == 0 {
        Err(SelectionError { team, role })
    } else {
        Ok(players[places[selection(state, places.len(), 0, MAX_VISITS as nat).0 as int]])
    }
}

/// The state of the random source after that selection. Without a candidate
/// nothing is drawn.
pub open spec fn state_after_selection(players: Seq<Player>, role: Position, state: Seq<u8>) -> Seq<
    u8,
> {
    let places = candidates(players, role);
    if places.len() == 0 {
        state
    } else {
        selection(state, places.len(), 0, MAX_VISITS as nat).1
    }
}

/// Every candidate is a place of the roster at which a player of the role
/// stands, and every such place is a candidate.
pub proof fn lemma_candidates(players: Seq<Player>, role: Position)
    ensures
        candidates(players, role).len() <= players.len(),
        forall|k: int|
            0 <= k < candidates(players, role).len() ==> {
                let place = #[trigger] candidates(players, role)[k];
                0 <= place < players.len() && players[place].position == role
            },
        forall|i: int|
            0 <= i < players.len() && (#[trigger] players[i]).position == role ==> candidates(
                players,
                role,
            ).contains(i),
    decreases players.len(),
{
    if players.len() > 0 {
        let rest = players.drop_last();
        lemma_candidates(rest, role);
        let all = candidates(players, role);
        let before = candidates(rest, role);
        assert forall|k: int| 0 <= k < all.len() implies {
            let place = #[trigger] all[k];
            0 <= place < players.len() && players[place].position == role
        } by {}
        assert forall|i: int| 0 <= i < players.len() && (#[trigger] players[i]).position
            == role implies all.contains(i) by {
            if i < rest.len() {
                assert(rest[i] == players[i]);
                let k = choose|k: int| 0 <= k < before.len() && before[k] == i;
                assert(all[k] == i);
            } else {
                assert(all[all.len() - 1] == i);
            }
        }
    }
}

/// A selection among `count` candidates selects one of them.
pub proof fn lemma_selection_in_range(state: Seq<u8>, count: nat, cursor: nat, visits: nat)
    requires
        cursor < count,
    ensures
        selection(state, count, cursor, visits).0 < count,
    decreases visits,
{
    if visits > 0 {
        let next = state_after_draw(state, 0, ACCEPTANCE_RANGE);
        lemma_selection_in_range(next, count, (cursor + 1) % count, (visits - 1) as nat);
    }
}

/// A selection gives a player of the roster who has the role, and fails only
/// where no player has it.
pub proof fn lemma_selected_player(team: u32, players: Seq<Player>, role: Position, state: Seq<u8>)
    ensures
        selected_player(team, players, role, state) is Err <==> forall|i: int|
            0 <= i < players.len() ==> (#[trigger] players[i]).position != role,
        selected_player(team, players, role, state) matches Ok(player) ==> player.position == role
            && players.contains(player),
        selected_player(team, players, role, state) matches Err(error) ==> error == (
        SelectionError { team, role }),
{
    let places = candidates(players, role);
    lemma_candidates(players, role);
    if places.len() > 0 {
        lemma_selection_in_range(state, places.len(), 0, MAX_VISITS as nat);
    }
}

/// Whether the player at `place` is the only one of the roster who has `role`.
pub open spec fn only_candidate(players: Seq<Player>, role: Position, place: int) -> bool {
    &&& 0 <= place < players.len()
    &&& players[place].position == role
    &&& forall|i: int|
        0 <= i < players.len() && i != place ==> (#[trigger] players[i]).position != role
}

/// Where exactly one player of the roster has the role, every selection gives
/// that player, whatever the draws.
pub proof fn lemma_only_candidate_is_selected(
    team: u32,
    players: Seq<Player>,
    role: Position,
    state: Seq<u8>,
    place: int,
)
    requires
        only_candidate(players, role, place),
    ensures
        selected_player(team, players, role, state) == Ok::<Player, SelectionError>(
            players[place],
        ),
{
    let places = candidates(players, role);
    lemma_candidates(players, role);
    lemma_selection_in_range(state, places.len(), 0, MAX_VISITS as nat);
}

/// The places in `players` of the players of `role`, in roster order.
pub fn candidate_places(players: &Vec<Player>, role: Position) -> (places: Vec<usize>)
    ensures
        places.len() == candidates(players@, role).len(),
        forall|k: int|
            0 <= k < places.len() ==> #[trigger] places[k] == candidates(players@, role)[k],
        forall|k: int| 0 <= k < places.len() ==> #[trigger] places[k] < players.len(),
{
    let mut places: Vec<usize> = Vec::new();
    let mut index: usize = 0;
    while index < players.len()
        invariant
            index <= players.len(),
            places.len() == candidates(players@.take(index as int), role).len(),
            forall|k: int|
                0 <= k < places.len() ==> #[trigger] places[k] == candidates(
                    players@.take(index as int),
                    role,
                )[k],
            forall|k: int| 0 <= k < places.len() ==> #[trigger] places[k] < index,
        decreases players.len() - index,
    {
        proof {
            assert(players@.take(index + 1).drop_last() == players@.take(index as int));
        }
        if players[index].position == role {
            places.push(index);
        }
        index += 1;
    }
    proof {
        assert(players@.take(index as int) == players@);
    }
    places
}

/// Selects a player of `role` among the `players` of `team`. Fails, without
/// a draw, where no player has the role.
pub fn select_player(
    team: u32,
    players: &Vec<Player>,
    role: Position,
    source: &mut RandomSource,
) -> (picked: Result<Player, SelectionError>)
    ensures
        picked == selected_player(team, players@, role, old(source).state()),
        final(source).state() == state_after_selection(players@, role, old(source).state()),
        picked is Err <==> forall|i: int|
            0 <= i < players.len() ==> (#[trigger] players@[i]).position != role,
        picked matches Ok(player) ==> player.position == role && players@.contains(player),
        picked matches Err(error) ==> error == (SelectionError { team, role }),
        forall|place: int|
            only_candidate(players@, role, place) ==> picked == Ok::<Player, SelectionError>(
                #[trigger] players@[place],
            ),
{
    proof {
        lemma_selected_player(team, players@, role, source.state());
        assert forall|place: int| only_candidate(players@, role, place) implies selected_player(
            team,
            players@,
            role,
            source.state(),
        ) == Ok::<Player, SelectionError>(#[trigger] players@[place]) by {
            lemma_only_candidate_is_selected(team, players@, role, source.state(), place);
        }
    }
    let places = candidate_places(players, role);
    if places.len() == 0 {
        return Err(SelectionError { team, role });
    }
    let ghost start = source.state();
    let ghost count = places.len() as nat;
    let mut cursor: usize = 0;
    let mut visits: u32 = MAX_VISITS;
    while visits > 0
        invariant
            count == places.len(),
            count == candidates(players@, role).len(),
            start == old(source).state(),
            cursor < places.len(),
            forall|k: int|
                0 <= k < places.len() ==> #[trigger] places[k] == candidates(players@, role)[k],
            forall|k: int| 0 <= k < places.len() ==> #[trigger] places[k] < players.len(),
            selection(start, count, 0, MAX_VISITS as nat) == selection(
                source.state(),
                count,
                cursor as nat,
                visits as nat,
            ),
        decreases visits,
    {
        let draw = source.draw(0, ACCEPTANCE_RANGE);
        if draw > ACCEPTANCE_THRESHOLD {
            proof {
                lemma_selected_player(team, players@, role, start);
            }
            return Ok(players[places[cursor]].clone());
        }
        cursor = (cursor + 1) % places.len();
        visits -= 1;
    }
    Ok(players[places[0]].clone())
}

impl TeamWithPlayers {
    /// Selects a player of `position` from this roster. Fails, without a
    /// draw, where the roster has no such player.
    pub fn get_random_player(&self, position: Position, source: &mut RandomSource) -> (picked:
        Result<Player, SelectionError>)
        ensures
            picked == selected_player(
                self.team.id,
                self.players@,
                position,
                old(source).state(),
            ),
            final(source).state() == state_after_selection(
                self.players@,
                position,
                old(source).state(),
            ),
            picked is Err <==> forall|i: int|
                0 <= i < self.players.len() ==> (#[trigger] self.players@[i]).position != position,
            picked matches Ok(player) ==> player.position == position && self.players@.contains(
                player,
            ),
            picked matches Err(error) ==> error == (SelectionError {
                team: self.team.id,
                role: position,
            }),
            forall|place: int|
                only_candidate(self.players@, position, place) ==> picked == Ok::<
                    Player,
                    SelectionError,
                >(#[trigger] self.players@[place]),
    {
        select_player(self.team.id, &self.players, position, source)
    }
}

} // verus!
