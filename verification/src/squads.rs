//! Building squads: which players of a pool a team calls up.
//!
//! A squad has four attackers, three midfielders, three defenders and one
//! goalkeeper. The pool is walked in rounds, from its first player on. A
//! player who is not yet in the squad is called up with a fixed chance where
//! the squad still wants a player of that role. After `MAX_SCOUTING_VISITS`
//! visits, what the squad still wants is taken from the pool in pool order,
//! so that a squad is always complete where the pool has enough players.

use crate::entities::{Player, Position, Team, TeamWithPlayers};
use crate::errors::SquadError;
use crate::random::{drawn_value, state_after_draw, RandomSource};
use vstd::prelude::*;
use vstd::seq_lib::*;
use vstd::set_lib::*;

verus! {

/// A visit draws from `0..CALL_UP_RANGE`.
pub const CALL_UP_RANGE: u64 = 100;

/// A visit calls its player up when the draw is above this.
pub const CALL_UP_THRESHOLD: u64 = 97;

/// The number of visits after which a squad is filled in pool order.
pub const MAX_SCOUTING_VISITS: u32 = 1_000_000;

/// How many players of `role` a squad has.
pub open spec fn quota(role: Position) -> nat {
    match role {
        Position::Attacker => 4,
        Position::Midfield => 3,
        Position::Defender => 3,
        Position::Goalkeeper => 1,
        Position::NotOnTheField => 0,
    }
}

/// The places of the pool at which players of `role` stand.
pub open spec fn role_places(pool: Seq<Player>, role: Position) -> Set<int> {
    Set::new(|place: int| 0 <= place < pool.len() && pool[place].position == role)
}

/// How many players of `role` the pool has.
pub open spec fn supply(pool: Seq<Player>, role: Position) -> nat {
    role_places(pool, role).len()
}

/// How many of the picked places hold a player of `role`.
pub open spec fn taken(pool: Seq<Player>, picks: Seq<int>, role: Position) -> nat {
    picks.to_set().intersect(role_places(pool, role)).len()
}

/// Whether the squad still wants the player at `place`: it has fewer players
/// of that role than its quota.
pub open spec fn wanted(pool: Seq<Player>, picks: Seq<int>, place: int) -> bool {
    taken(pool, picks, pool[place].position) < quota(pool[place].position)
}

/// Whether the squad has its quota in every role.
pub open spec fn complete(pool: Seq<Player>, picks: Seq<int>) -> bool {
    &&& taken(pool, picks, Position::Attacker) >= quota(Position::Attacker)
    &&& taken(pool, picks, Position::Midfield) >= quota(Position::Midfield)
    &&& taken(pool, picks, Position::Defender) >= quota(Position::Defender)
    &&& taken(pool, picks, Position::Goalkeeper) >= quota(Position::Goalkeeper)
}

/// Whether picks are places of the pool, none twice, with no role above its
/// quota: each pick counts towards the quota of one role.
pub open spec fn sound_picks(pool: Seq<Player>, picks: Seq<int>) -> bool {
    &&& picks.no_duplicates()
    &&& forall|k: int| 0 <= k < picks.len() ==> 0 <= #[trigger] picks[k] < pool.len()
    &&& forall|role: Position| #[trigger] taken(pool, picks, role) <= quota(role)
    &&& picks.len() == taken(pool, picks, Position::Attacker) + taken(
        pool,
        picks,
        Position::Midfield,
    ) + taken(pool, picks, Position::Defender) + taken(pool, picks, Position::Goalkeeper)
}

/// The picks of a squad while the pool is walked in rounds, and the state of
/// the random source afterwards: `picks` are made, the walk stands at
/// `cursor`, and `visits` visits are left. A player who is picked already is
/// passed without a draw.
pub open spec fn scouting(
    pool: Seq<Player>,
    picks: Seq<int>,
    cursor: int,
    state: Seq<u8>,
    visits: nat,
) -> (Seq<int>, Seq<u8>)
    decreases visits,
{
    if visits == 0 || complete(pool, picks) {
        (picks, state)
    } else {
        let next = (cursor + 1) % (pool.len() as int);
        if picks.contains(cursor) {
            scouting(pool, picks, next, state, (visits - 1) as nat)
        } else {
            let chance = drawn_value(state, 0, CALL_UP_RANGE);
            let then = state_after_draw(state, 0, CALL_UP_RANGE);
            if chance > CALL_UP_THRESHOLD && wanted(pool, picks, cursor) {
                scouting(pool, picks.push(cursor), next, then, (visits - 1) as nat)
            } else {
                scouting(pool, picks, next, then, (visits - 1) as nat)
            }
        }
    }
}

/// The picks after the first `upto` places of the pool were walked once more
/// and every player that the squad still wanted was taken.
pub open spec fn filled(pool: Seq<Player>, picks: Seq<int>, upto: nat) -> Seq<int>
    decreases upto,
{
    if upto == 0 {
        picks
    } else {
        let before = filled(pool, picks, (upto - 1) as nat);
        if !before.contains(upto - 1) && wanted(pool, before, upto - 1) {
            before.push(upto - 1)
        } else {
            before
        }
    }
}

/// The places of the pool that a squad is made of, in the order they are
/// picked, with the random source in `state`.
pub open spec fn squad_picks(pool: Seq<Player>, state: Seq<u8>) -> Seq<int> {
    filled(
        pool,
        scouting(pool, Seq::empty(), 0, state, MAX_SCOUTING_VISITS as nat).0,
        pool.len(),
    )
}

/// The state of the random source after a squad is picked.
pub open spec fn state_after_squad(pool: Seq<Player>, state: Seq<u8>) -> Seq<u8> {
    scouting(pool, Seq::empty(), 0, state, MAX_SCOUTING_VISITS as nat).1
}

/// The first role, in the order attack, midfield, defense, goal, of which
/// the pool has fewer players than a squad needs.
pub open spec fn shortage(pool: Seq<Player>) -> Option<Position> {
    if supply(pool, Position::Attacker) < quota(Position::Attacker) {
        Some(Position::Attacker)
    } else if supply(pool, Position::Midfield) < quota(Position::Midfield) {
        Some(Position::Midfield)
    } else if supply(pool, Position::Defender) < quota(Position::Defender) {
        Some(Position::Defender)
    } else if supply(pool, Position::Goalkeeper) < quota(Position::Goalkeeper) {
        Some(Position::Goalkeeper)
    } else {
        None
    }
}

/// The places of a role are finitely many, no more than the pool has players.
pub proof fn lemma_role_places_finite(pool: Seq<Player>, role: Position)
    ensures
        role_places(pool, role).finite(),
        supply(pool, role) <= pool.len(),
{
    lemma_int_range(0, pool.len() as int);
    lemma_len_subset(role_places(pool, role), set_int_range(0, pool.len() as int));
}

/// No more players of a role are picked than the pool has.
pub proof fn lemma_taken_within_supply(pool: Seq<Player>, picks: Seq<int>, role: Position)
    ensures
        taken(pool, picks, role) <= supply(pool, role),
{
    lemma_role_places_finite(pool, role);
    lemma_len_subset(picks.to_set().intersect(role_places(pool, role)), role_places(pool, role));
}

/// From a pool that is short of a role no squad can be completed, whatever
/// is picked.
pub proof fn lemma_shortage_leaves_squads_incomplete(pool: Seq<Player>, picks: Seq<int>)
    requires
        shortage(pool) is Some,
    ensures
        !complete(pool, picks),
{
    lemma_taken_within_supply(pool, picks, Position::Attacker);
    lemma_taken_within_supply(pool, picks, Position::Midfield);
    lemma_taken_within_supply(pool, picks, Position::Defender);
    lemma_taken_within_supply(pool, picks, Position::Goalkeeper);
}

/// Where every player of a role is picked, as many are picked as the pool
/// has.
pub proof fn lemma_all_taken(pool: Seq<Player>, picks: Seq<int>, role: Position)
    requires
        forall|place: int|
            0 <= place < pool.len() && (#[trigger] pool[place]).position == role
                ==> picks.contains(place),
    ensures
        taken(pool, picks, role) == supply(pool, role),
{
    assert(picks.to_set().intersect(role_places(pool, role)) =~= role_places(pool, role));
}

/// One where `counts` holds, else nothing.
pub open spec fn one_if(counts: bool) -> nat {
    if counts {
        1
    } else {
        0
    }
}

/// Picking one more place adds one to the role of its player and leaves the
/// other roles as they are.
pub proof fn lemma_pick(pool: Seq<Player>, picks: Seq<int>, place: int)
    requires
        0 <= place < pool.len(),
        !picks.contains(place),
    ensures
        forall|role: Position|
            #[trigger] taken(pool, picks.push(place), role) == taken(pool, picks, role) + one_if(
                pool[place].position == role,
            ),
{
    assert forall|role: Position|
        #[trigger] taken(pool, picks.push(place), role) == taken(pool, picks, role) + one_if(
            pool[place].position == role,
        ) by {
        let before = picks.to_set().intersect(role_places(pool, role));
        let after = picks.push(place).to_set().intersect(role_places(pool, role));
        picks.lemma_push_to_set_commute(place);
        seq_to_set_is_finite(picks);
        if pool[place].position == role {
            assert(after =~= before.insert(place));
        } else {
            assert(after =~= before);
        }
    }
}

/// Nothing is picked from an empty list of picks.
pub proof fn lemma_nothing_taken(pool: Seq<Player>, role: Position)
    ensures
        taken(pool, Seq::<int>::empty(), role) == 0,
{
    assert(Seq::<int>::empty().to_set().intersect(role_places(pool, role)) =~= Set::<int>::empty());
}

/// A sound list of picks stays sound when a wanted player who is not in it is
/// picked.
pub proof fn lemma_pick_stays_sound(pool: Seq<Player>, picks: Seq<int>, place: int)
    requires
        sound_picks(pool, picks),
        0 <= place < pool.len(),
        !picks.contains(place),
        wanted(pool, picks, place),
    ensures
        sound_picks(pool, picks.push(place)),
{
    lemma_pick(pool, picks, place);
}

/// Filling keeps what was picked, keeps the picks sound, and takes from no
/// role.
pub proof fn lemma_filled_grows(pool: Seq<Player>, picks: Seq<int>, upto: nat)
    requires
        sound_picks(pool, picks),
        upto <= pool.len(),
    ensures
        sound_picks(pool, filled(pool, picks, upto)),
        picks.is_prefix_of(filled(pool, picks, upto)),
        forall|role: Position|
            taken(pool, picks, role) <= #[trigger] taken(pool, filled(pool, picks, upto), role),
    decreases upto,
{
    if upto > 0 {
        let before = filled(pool, picks, (upto - 1) as nat);
        lemma_filled_grows(pool, picks, (upto - 1) as nat);
        if !before.contains(upto - 1) && wanted(pool, before, upto - 1) {
            lemma_pick_stays_sound(pool, before, upto - 1);
            lemma_pick(pool, before, upto - 1);
        }
    }
}

/// After the first `upto` places were walked, the squad has its quota of
/// `role`, or every player of `role` among them is picked.
pub proof fn lemma_filled_covers(pool: Seq<Player>, picks: Seq<int>, upto: nat, role: Position)
    requires
        sound_picks(pool, picks),
        upto <= pool.len(),
    ensures
        taken(pool, filled(pool, picks, upto), role) >= quota(role) || forall|place: int|
            0 <= place < upto && (#[trigger] pool[place]).position == role ==> filled(
                pool,
                picks,
                upto,
            ).contains(place),
    decreases upto,
{
    if upto > 0 {
        let before = filled(pool, picks, (upto - 1) as nat);
        let after = filled(pool, picks, upto);
        lemma_filled_covers(pool, picks, (upto - 1) as nat, role);
        lemma_filled_grows(pool, picks, (upto - 1) as nat);
        if !before.contains(upto - 1) && wanted(pool, before, upto - 1) {
            lemma_pick(pool, before, upto - 1);
            assert(after[before.len() as int] == upto - 1);
        }
        if taken(pool, before, role) < quota(role) {
            assert forall|place: int|
                0 <= place < upto && (#[trigger] pool[place]).position == role implies after.contains(
                place,
            ) by {
                if before.contains(place) {
                    let k = choose|k: int| 0 <= k < before.len() && before[k] == place;
                    assert(after[k] == place);
                }
            }
        }
    }
}

/// Where the pool has enough players of every role, a filled squad is
/// complete: it has exactly its quota in every role, eleven players in all.
pub proof fn lemma_filled_is_complete(pool: Seq<Player>, picks: Seq<int>)
    requires
        sound_picks(pool, picks),
        shortage(pool) is None,
    ensures
        complete(pool, filled(pool, picks, pool.len())),
        sound_picks(pool, filled(pool, picks, pool.len())),
        filled(pool, picks, pool.len()).len() == 11,
{
    let all = filled(pool, picks, pool.len());
    lemma_filled_grows(pool, picks, pool.len());
    lemma_filled_covers(pool, picks, pool.len(), Position::Attacker);
    lemma_filled_covers(pool, picks, pool.len(), Position::Midfield);
    lemma_filled_covers(pool, picks, pool.len(), Position::Defender);
    lemma_filled_covers(pool, picks, pool.len(), Position::Goalkeeper);
    if taken(pool, all, Position::Attacker) < quota(Position::Attacker) {
        lemma_all_taken(pool, all, Position::Attacker);
    }
    if taken(pool, all, Position::Midfield) < quota(Position::Midfield) {
        lemma_all_taken(pool, all, Position::Midfield);
    }
    if taken(pool, all, Position::Defender) < quota(Position::Defender) {
        lemma_all_taken(pool, all, Position::Defender);
    }
    if taken(pool, all, Position::Goalkeeper) < quota(Position::Goalkeeper) {
        lemma_all_taken(pool, all, Position::Goalkeeper);
    }
}

/// How many players of `role` the pool has.
pub fn count_role(pool: &Vec<Player>, role: Position) -> (count: usize)
    ensures
        count == supply(pool@, role),
{
    let mut count: usize = 0;
    let mut index: usize = 0;
    proof {
        assert(role_places(pool@.take(0), role) =~= Set::<int>::empty());
    }
    while index < pool.len()
        invariant
            index <= pool.len(),
            count <= index,
            count == supply(pool@.take(index as int), role),
        decreases pool.len() - index,
    {
        proof {
            let before = role_places(pool@.take(index as int), role);
            let after = role_places(pool@.take(index + 1), role);
            lemma_role_places_finite(pool@.take(index as int), role);
            if pool@[index as int].position == role {
                assert(after =~= before.insert(index as int));
            } else {
                assert(after =~= before);
            }
        }
        if pool[index].position == role {
            count += 1;
        }
        index += 1;
    }
    proof {
        assert(pool@.take(index as int) == pool@);
    }
    count
}

/// The first role of which the pool has too few players for a squad.
pub fn find_shortage(pool: &Vec<Player>) -> (short: Option<Position>)
    ensures
        short == shortage(pool@),
{
    if count_role(pool, Position::Attacker) < 4 {
        Some(Position::Attacker)
    } else if count_role(pool, Position::Midfield) < 3 {
        Some(Position::Midfield)
    } else if count_role(pool, Position::Defender) < 3 {
        Some(Position::Defender)
    } else if count_role(pool, Position::Goalkeeper) < 1 {
        Some(Position::Goalkeeper)
    } else {
        None
    }
}

/// The places that a list of indices stands for.
pub open spec fn places(picks: Seq<usize>) -> Seq<int> {
    picks.map_values(|pick: usize| pick as int)
}

/// The players at the picked places, in the order of the picks.
pub open spec fn players_at(pool: Seq<Player>, picks: Seq<int>) -> Seq<Player> {
    picks.map_values(|place: int| pool[place])
}

/// Whether `place` is among the picks.
pub fn is_picked(picks: &Vec<usize>, place: usize) -> (picked: bool)
    ensures
        picked == places(picks@).contains(place as int),
{
    let mut index: usize = 0;
    while index < picks.len()
        invariant
            index <= picks.len(),
            forall|k: int| 0 <= k < index ==> places(picks@)[k] != place,
        decreases picks.len() - index,
    {
        if picks[index] == place {
            proof {
                assert(places(picks@)[index as int] == place);
            }
            return true;
        }
        index += 1;
    }
    false
}

/// How many players of each role a squad has so far.
#[derive(PartialEq, Eq, Structural, Clone, Copy, Debug)]
pub struct Tally {
    pub attackers: usize,
    pub midfielders: usize,
    pub defenders: usize,
    pub goalkeepers: usize,
}

impl Tally {
    /// Whether this is the tally of `picks`.
    pub open spec fn counts(&self, pool: Seq<Player>, picks: Seq<int>) -> bool {
        &&& self.attackers == taken(pool, picks, Position::Attacker)
        &&& self.midfielders == taken(pool, picks, Position::Midfield)
        &&& self.defenders == taken(pool, picks, Position::Defender)
        &&& self.goalkeepers == taken(pool, picks, Position::Goalkeeper)
    }

    /// The number of players of `role`; none for players off the field.
    pub open spec fn of(&self, role: Position) -> nat {
        match role {
            Position::Attacker => self.attackers as nat,
            Position::Midfield => self.midfielders as nat,
            Position::Defender => self.defenders as nat,
            Position::Goalkeeper => self.goalkeepers as nat,
            Position::NotOnTheField => 0,
        }
    }

    /// Whether the squad wants another player of `role`.
    pub fn wants(&self, role: Position) -> (wanted: bool)
        ensures
            wanted == (self.of(role) < quota(role)),
    {
        match role {
            Position::Attacker => self.attackers < 4,
            Position::Midfield => self.midfielders < 3,
            Position::Defender => self.defenders < 3,
            Position::Goalkeeper => self.goalkeepers < 1,
            Position::NotOnTheField => false,
        }
    }

    /// Whether the squad has its quota in every role.
    pub fn is_complete(&self) -> (done: bool)
        ensures
            done == (self.attackers >= 4 && self.midfielders >= 3 && self.defenders >= 3
                && self.goalkeepers >= 1),
    {
        self.attackers >= 4 && self.midfielders >= 3 && self.defenders >= 3 && self.goalkeepers
            >= 1
    }

    /// The tally with one more player of `role`.
    pub fn with(&self, role: Position) -> (more: Tally)
        requires
            self.of(role) < quota(role),
        ensures
            forall|other: Position|
                #[trigger] more.of(other) == self.of(other) + one_if(other == role),
    {
        match role {
            Position::Attacker => Tally { attackers: self.attackers + 1, ..*self },
            Position::Midfield => Tally { midfielders: self.midfielders + 1, ..*self },
            Position::Defender => Tally { defenders: self.defenders + 1, ..*self },
            Position::Goalkeeper => Tally { goalkeepers: self.goalkeepers + 1, ..*self },
            Position::NotOnTheField => *self,
        }
    }
}

/// Picks `place` for the squad.
fn pick(pool: &Vec<Player>, picks: &mut Vec<usize>, tally: &mut Tally, place: usize)
    requires
        place < pool.len(),
        sound_picks(pool@, places(old(picks)@)),
        old(tally).counts(pool@, places(old(picks)@)),
        !places(old(picks)@).contains(place as int),
        wanted(pool@, places(old(picks)@), place as int),
    ensures
        places(final(picks)@) == places(old(picks)@).push(place as int),
        sound_picks(pool@, places(final(picks)@)),
        final(tally).counts(pool@, places(final(picks)@)),
{
    proof {
        lemma_pick_stays_sound(pool@, places(picks@), place as int);
        lemma_pick(pool@, places(picks@), place as int);
    }
    let ghost before = picks@;
    let more = tally.with(pool[place].position);
    picks.push(place);
    *tally = more;
    proof {
        assert(places(picks@) == places(before).push(place as int));
        assert(more.of(Position::Attacker) == more.attackers);
        assert(more.of(Position::Midfield) == more.midfielders);
        assert(more.of(Position::Defender) == more.defenders);
        assert(more.of(Position::Goalkeeper) == more.goalkeepers);
    }
}

/// Picks the places of a squad from the pool.
pub fn pick_squad(pool: &Vec<Player>, source: &mut RandomSource) -> (picks: Vec<usize>)
    requires
        shortage(pool@) is None,
    ensures
        places(picks@) == squad_picks(pool@, old(source).state()),
        final(source).state() == state_after_squad(pool@, old(source).state()),
        sound_picks(pool@, places(picks@)),
        complete(pool@, places(picks@)),
        picks.len() == 11,
{
    let mut picks: Vec<usize> = Vec::new();
    let mut tally = Tally { attackers: 0, midfielders: 0, defenders: 0, goalkeepers: 0 };
    let mut cursor: usize = 0;
    let mut visits: u32 = MAX_SCOUTING_VISITS;
    proof {
        lemma_role_places_finite(pool@, Position::Goalkeeper);
        assert(places(picks@) == Seq::<int>::empty());
        assert forall|role: Position| #[trigger]
            taken(pool@, places(picks@), role) <= quota(role) by {
            lemma_nothing_taken(pool@, role);
        }
        lemma_nothing_taken(pool@, Position::Attacker);
        lemma_nothing_taken(pool@, Position::Midfield);
        lemma_nothing_taken(pool@, Position::Defender);
        lemma_nothing_taken(pool@, Position::Goalkeeper);
    }
    while visits > 0 && !tally.is_complete()
        invariant
            cursor < pool.len(),
            sound_picks(pool@, places(picks@)),
            tally.counts(pool@, places(picks@)),
            scouting(
                pool@,
                Seq::empty(),
                0,
                old(source).state(),
                MAX_SCOUTING_VISITS as nat,
            ) == scouting(pool@, places(picks@), cursor as int, source.state(), visits as nat),
        decreases visits,
    {
        if !is_picked(&picks, cursor) {
            let chance = source.draw(0, CALL_UP_RANGE);
            if chance > CALL_UP_THRESHOLD && tally.wants(pool[cursor].position) {
                pick(pool, &mut picks, &mut tally, cursor);
            }
        }
        cursor = (cursor + 1) % pool.len();
        visits -= 1;
    }
    let ghost scouted = places(picks@);
    let mut place: usize = 0;
    while place < pool.len()
        invariant
            place <= pool.len(),
            sound_picks(pool@, scouted),
            sound_picks(pool@, places(picks@)),
            tally.counts(pool@, places(picks@)),
            places(picks@) == filled(pool@, scouted, place as nat),
        decreases pool.len() - place,
    {
        if !is_picked(&picks, place) && tally.wants(pool[place].position) {
            pick(pool, &mut picks, &mut tally, place);
        }
        place += 1;
    }
    proof {
        lemma_filled_is_complete(pool@, scouted);
    }
    picks
}

/// The players at the picked places of the pool.
pub fn call_up(pool: &Vec<Player>, picks: &Vec<usize>) -> (players: Vec<Player>)
    requires
        forall|k: int| 0 <= k < picks.len() ==> #[trigger] picks[k] < pool.len(),
    ensures
        players@ == players_at(pool@, places(picks@)),
{
    let mut players: Vec<Player> = Vec::new();
    let mut index: usize = 0;
    while index < picks.len()
        invariant
            index <= picks.len(),
            forall|k: int| 0 <= k < picks.len() ==> #[trigger] picks[k] < pool.len(),
            players@ == players_at(pool@, places(picks@).take(index as int)),
        decreases picks.len() - index,
    {
        players.push(pool[picks[index]].clone());
        index += 1;
    }
    players
}

/// The state of the random source before the squad at place `index` is
/// picked: squads are picked one after another from the one source.
pub open spec fn state_before_squad(pool: Seq<Player>, state: Seq<u8>, index: nat) -> Seq<u8>
    decreases index,
{
    if index == 0 {
        state
    } else {
        state_after_squad(pool, state_before_squad(pool, state, (index - 1) as nat))
    }
}

/// The places of the pool that the squad at place `index` is made of.
pub open spec fn picks_of_squad(pool: Seq<Player>, state: Seq<u8>, index: nat) -> Seq<int> {
    squad_picks(pool, state_before_squad(pool, state, index))
}

/// Builds a squad for each team from the one pool of players, team after
/// team. A player can be in the squads of several teams, and in none twice.
/// Fails, without a draw, where there is a team and the pool has too few
/// players of some role.
pub fn make_teams(
    in_players: Vec<Player>,
    in_teams: Vec<Team>,
    source: &mut RandomSource,
) -> (squads: Result<Vec<TeamWithPlayers>, SquadError>)
    ensures
        squads is Ok <==> in_teams.len() == 0 || shortage(in_players@) is None,
        squads matches Err(error) ==> shortage(in_players@) == Some(error.role),
        squads is Err ==> final(source).state() == old(source).state(),
        squads matches Ok(rosters) ==> {
            &&& rosters.len() == in_teams.len()
            &&& final(source).state() == state_before_squad(
                in_players@,
                old(source).state(),
                in_teams@.len(),
            )
            &&& forall|i: int|
                0 <= i < rosters.len() ==> {
                    let picks = picks_of_squad(in_players@, old(source).state(), i as nat);
                    &&& (#[trigger] rosters[i]).team == in_teams[i]
                    &&& rosters[i].players@ == players_at(in_players@, picks)
                    &&& sound_picks(in_players@, picks)
                    &&& complete(in_players@, picks)
                    &&& rosters[i].players.len() == 11
                }
        },
{
    let mut rosters: Vec<TeamWithPlayers> = Vec::new();
    if in_teams.len() == 0 {
        return Ok(rosters);
    }
    match find_shortage(&in_players) {
        Some(role) => {
            return Err(SquadError { role });
        },
        None => {},
    }
    let mut index: usize = 0;
    while index < in_teams.len()
        invariant
            index <= in_teams.len(),
            shortage(in_players@) is None,
            rosters.len() == index,
            source.state() == state_before_squad(
                in_players@,
                old(source).state(),
                index as nat,
            ),
            forall|i: int|
                0 <= i < index ==> {
                    let picks = picks_of_squad(in_players@, old(source).state(), i as nat);
                    &&& (#[trigger] rosters[i]).team == in_teams[i]
                    &&& rosters[i].players@ == players_at(in_players@, picks)
                    &&& sound_picks(in_players@, picks)
                    &&& complete(in_players@, picks)
                    &&& rosters[i].players.len() == 11
                },
        decreases in_teams.len() - index,
    {
        let picks = pick_squad(&in_players, source);
        proof {
            assert forall|k: int| 0 <= k < picks.len() implies #[trigger] picks[k]
                < in_players.len() by {
                assert(places(picks@)[k] == picks[k]);
            }
        }
        let players = call_up(&in_players, &picks);
        rosters.push(TeamWithPlayers { team: in_teams[index].clone(), players });
        index += 1;
    }
    Ok(rosters)
}

} // verus!
