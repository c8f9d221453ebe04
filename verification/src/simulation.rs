//! Scheduling the fixtures of a league and playing them.

use crate::configuration::{check_roster, configuration_fault, lookup_standing};
use crate::engine::{
    credited, going_on, kick_off, lemma_failure_is_final, lemma_outcome_is_determined,
    match_outcome, play_minute, progress_after, sides_of, sides_with, uncredited, MINUTES,
};
use crate::entities::Position;
use crate::sectors::no_player_of;
use crate::entities::{
    first_team_index, lemma_first_team_exists, lemma_first_team_index,
    lemma_same_rosters_same_players, lemma_score_counts_every_goal, same_rosters, Match,
    MatchRecord, TeamWithPlayers,
};
use crate::errors::SimulationError;
use crate::pitch::{KICK_OFF, MAX_EFFORT};
use crate::random::RandomSource;
use vstd::prelude::*;

verus! {

/// The records of a list of matches.
pub open spec fn records(matches: Seq<Match>) -> Seq<MatchRecord> {
    matches.map_values(|game: Match| game@)
}

/// The fixture in which `home` receives `away`, not yet played.
pub open spec fn fixture(home: u32, away: u32) -> MatchRecord {
    MatchRecord { team_home: home, team_out: away, goals: Seq::empty() }
}

/// The home fixtures of the team at place `home`: it receives, in list order,
/// the teams that stand before the first place of its own id, and no others.
pub open spec fn home_fixtures(teams: Seq<TeamWithPlayers>, home: int) -> Seq<MatchRecord> {
    Seq::new(
        first_team_index(teams, teams[home].team.id) as nat,
        |away: int| fixture(teams[home].team.id, teams[away].team.id),
    )
}

/// The home fixtures of the first `count` teams, team after team.
pub open spec fn fixtures_of_first(teams: Seq<TeamWithPlayers>, count: nat) -> Seq<MatchRecord>
    decreases count,
{
    if count == 0 {
        Seq::empty()
    } else {
        fixtures_of_first(teams, (count - 1) as nat) + home_fixtures(teams, count - 1)
    }
}

/// The fixture list of a league: the partial, order-dependent round robin in
/// which each team is at home to the teams listed before it.
pub open spec fn league_fixtures(teams: Seq<TeamWithPlayers>) -> Seq<MatchRecord> {
    fixtures_of_first(teams, teams.len())
}

/// No team meets itself, and no fixture has a goal before it is played.
pub proof fn lemma_fixtures_have_two_sides(teams: Seq<TeamWithPlayers>, count: nat)
    requires
        count <= teams.len(),
    ensures
        forall|k: int|
            0 <= k < fixtures_of_first(teams, count).len() ==> {
                let game = #[trigger] fixtures_of_first(teams, count)[k];
                game.team_home != game.team_out && game.goals.len() == 0
            },
    decreases count,
{
    if count > 0 {
        let before = fixtures_of_first(teams, (count - 1) as nat);
        let home = count - 1;
        let id = teams[home].team.id;
        lemma_fixtures_have_two_sides(teams, (count - 1) as nat);
        lemma_first_team_exists(teams, id, home);
        assert forall|k: int| 0 <= k < fixtures_of_first(teams, count).len() implies ({
            let game = #[trigger] fixtures_of_first(teams, count)[k];
            game.team_home != game.team_out && game.goals.len() == 0
        }) by {
            if k >= before.len() {
                assert(fixtures_of_first(teams, count)[k] == home_fixtures(teams, home)[k
                    - before.len()]);
            } else {
                assert(fixtures_of_first(teams, count)[k] == before[k]);
            }
        }
    }
}

/// Lists of equal rosters have the same fixtures.
pub proof fn lemma_fixtures_are_determined(
    first: Seq<TeamWithPlayers>,
    second: Seq<TeamWithPlayers>,
    count: nat,
)
    requires
        same_rosters(first, second),
        count <= first.len(),
    ensures
        fixtures_of_first(first, count) == fixtures_of_first(second, count),
    decreases count,
{
    if count > 0 {
        let id = first[count - 1].team.id;
        lemma_fixtures_are_determined(first, second, (count - 1) as nat);
        lemma_first_team_exists(first, id, count - 1);
        lemma_same_rosters_same_players(first, second, id);
    }
}

/// A run of a league is determined by its rosters, its table and its seed:
/// on lists of equal rosters the fixtures are the same, and so is the outcome
/// of each of them.
pub proof fn lemma_league_is_determined(
    first: Seq<TeamWithPlayers>,
    second: Seq<TeamWithPlayers>,
    standings: Seq<u32>,
    seed: u64,
    place: int,
)
    requires
        same_rosters(first, second),
        0 <= place < league_fixtures(first).len(),
    ensures
        league_fixtures(first) == league_fixtures(second),
        match_outcome(
            first,
            league_fixtures(first)[place],
            standings,
            fixture_seed(seed, place as nat),
        ) == match_outcome(
            second,
            league_fixtures(second)[place],
            standings,
            fixture_seed(seed, place as nat),
        ),
{
    lemma_fixtures_are_determined(first, second, first.len());
    lemma_outcome_is_determined(
        first,
        second,
        league_fixtures(first)[place],
        standings,
        fixture_seed(seed, place as nat),
    );
}

/// Lists the fixtures of a league. For each team in list order, the list is
/// scanned from its start, and the scan for that team ends at the first team
/// that has its id: a team is at home to the teams listed before it and to no
/// team listed after it.
pub fn make_matches(teams: &Vec<TeamWithPlayers>) -> (matches: Vec<Match>)
    ensures
        records(matches@) == league_fixtures(teams@),
        forall|k: int|
            0 <= k < matches.len() ==> (#[trigger] matches[k]).team_home != matches[k].team_out
                && matches[k].goals.len() == 0,
{
    let mut matches: Vec<Match> = Vec::new();
    let mut home: usize = 0;
    while home < teams.len()
        invariant
            home <= teams.len(),
            records(matches@) == fixtures_of_first(teams@, home as nat),
        decreases teams.len() - home,
    {
        let home_id = teams[home].team.id;
        let ghost before = records(matches@);
        let mut away: usize = 0;
        while away < teams.len() && teams[away].team.id != home_id
            invariant
                home < teams.len(),
                away <= home,
                home_id == teams@[home as int].team.id,
                forall|j: int| 0 <= j < away ==> teams@[j].team.id != home_id,
                records(matches@) == before + Seq::new(
                    away as nat,
                    |a: int| fixture(home_id, teams@[a].team.id),
                ),
            decreases teams.len() - away,
        {
            let ghost listed = matches@;
            matches.push(
                Match { team_home: home_id, team_out: teams[away].team.id, goals: Vec::new() },
            );
            proof {
                assert(records(matches@) == records(listed).push(
                    fixture(home_id, teams@[away as int].team.id),
                ));
            }
            away += 1;
        }
        proof {
            lemma_first_team_index(teams@, home_id, away as int);
        }
        home += 1;
    }
    proof {
        lemma_fixtures_have_two_sides(teams@, teams@.len());
        assert forall|k: int| 0 <= k < matches.len() implies (#[trigger] matches[k]).team_home
            != matches[k].team_out && matches[k].goals.len() == 0 by {
            assert(records(matches@)[k] == matches[k]@);
        }
    }
    matches
}

/// The record of an outcome: of a match that was played, its record.
pub open spec fn outcome_record(outcome: Result<Match, SimulationError>) -> Result<
    MatchRecord,
    SimulationError,
> {
    match outcome {
        Ok(game) => Ok(game@),
        Err(error) => Err(error),
    }
}

/// The seed of the fixture at place `index` of a run with seed `seed`: their
/// sum, wrapping around.
pub open spec fn fixture_seed(seed: u64, index: nat) -> u64 {
    ((seed + index) % 0x1_0000_0000_0000_0000) as u64
}

/// The seed of the fixture at place `index` of a run with seed `seed`.
pub fn seed_of_fixture(seed: u64, index: usize) -> (own: u64)
    ensures
        own == fixture_seed(seed, index as nat),
{
    seed.wrapping_add(index as u64)
}

/// Plays `game` on the rosters in `teams` and the table `standings`, with a
/// random source that `seed` sets up. The outcome is a function of these
/// four: it is the fault of the configuration where there is one, the
/// failure that broke the match off where a side without an attacker scored,
/// and else the fixture with the goals of its ninety minutes behind those it
/// brought along.
pub fn simulate_match(
    teams: &Vec<TeamWithPlayers>,
    game: &Match,
    standings: &Vec<u32>,
    seed: u64,
) -> (outcome: Result<Match, SimulationError>)
    ensures
        outcome_record(outcome) == match_outcome(teams@, game@, standings@, seed),
        configuration_fault(teams@, game@, standings@) matches Some(fault) ==> outcome == Err::<
            Match,
            SimulationError,
        >(fault),
        configuration_fault(teams@, game@, standings@) is None ==> {
            let lineups = sides_of(teams@, game@, standings@).lineups;
            &&& outcome matches Err(failure) ==> exists|minute: u32|
                minute < MINUTES && #[trigger] uncredited(failure, lineups, minute)
            &&& !no_player_of(lineups.home_players, Position::Attacker) && !no_player_of(
                lineups.away_players,
                Position::Attacker,
            ) ==> outcome is Ok
        },
        outcome matches Ok(played) ==> {
            &&& played.team_home == game.team_home
            &&& played.team_out == game.team_out
            &&& game.goals@.is_prefix_of(played.goals@)
            &&& forall|k: int|
                game.goals.len() <= k < played.goals.len() ==> {
                    let goal = #[trigger] played.goals@[k];
                    &&& goal.time < MINUTES
                    &&& credited(goal, sides_of(teams@, game@, standings@).lineups)
                }
            &&& forall|k: int, l: int|
                game.goals.len() <= k <= l < played.goals.len() ==> (
                #[trigger] played.goals@[k]).time <= (#[trigger] played.goals@[l]).time
            &&& game@.well_formed() ==> played@.well_formed()
            &&& game.goals.len() == 0 ==> played@.chronological_within(MINUTES)
        },
{
    let home_standing = match lookup_standing(standings, game.team_home) {
        Ok(standing) => standing,
        Err(error) => {
            return Err(error);
        },
    };
    let away_standing = match lookup_standing(standings, game.team_out) {
        Ok(standing) => standing,
        Err(error) => {
            return Err(error);
        },
    };
    let (home_players, away_players) = game.get_players(teams);
    match check_roster(game.team_home, &home_players) {
        Ok(_) => {},
        Err(error) => {
            return Err(error);
        },
    }
    match check_roster(game.team_out, &away_players) {
        Ok(_) => {},
        Err(error) => {
            return Err(error);
        },
    }
    let ghost sides = sides_of(teams@, game@, standings@);
    let ghost start = kick_off(game@, seed);
    let mut played = game.clone();
    let mut source = RandomSource::from_seed(seed);
    let mut field: i128 = KICK_OFF;
    let mut minute: u32 = 0;
    while minute < MINUTES
        invariant
            minute <= MINUTES,
            configuration_fault(teams@, game@, standings@) is None,
            start == kick_off(game@, seed),
            sides == sides_with(
                played@,
                home_players@,
                away_players@,
                home_standing,
                away_standing,
            ),
            sides == sides_of(teams@, game@, standings@),
            progress_after(sides, start, minute as nat) == going_on(
                field as int,
                played.goals@,
                source.state(),
            ),
            -(100 + minute * MAX_EFFORT) <= field <= 100 + minute * MAX_EFFORT,
            played.team_home == game.team_home,
            played.team_out == game.team_out,
            game.goals@.is_prefix_of(played.goals@),
            forall|k: int|
                game.goals.len() <= k < played.goals.len() ==> {
                    let goal = #[trigger] played.goals@[k];
                    &&& goal.time < minute
                    &&& credited(goal, sides.lineups)
                },
            forall|k: int, l: int|
                game.goals.len() <= k <= l < played.goals.len() ==> (
                #[trigger] played.goals@[k]).time <= (#[trigger] played.goals@[l]).time,
        decreases MINUTES - minute,
    {
        match play_minute(
            &mut played,
            &home_players,
            &away_players,
            home_standing,
            away_standing,
            field,
            minute,
            &mut source,
        ) {
            Ok(position) => {
                field = position;
            },
            Err(failure) => {
                proof {
                    lemma_failure_is_final(sides, start, (minute + 1) as nat, MINUTES as nat);
                }
                return Err(failure);
            },
        }
        minute += 1;
    }
    proof {
        if game@.well_formed() {
            assert forall|i: int| 0 <= i < played.goals@.len() implies (
            #[trigger] played@.goals[i]).team_id == played@.team_home || played@.goals[i].team_id
                == played@.team_out by {
                if i < game.goals.len() {
                    assert(played.goals@[i] == game@.goals[i]);
                }
            }
        }
    }
    Ok(played)
}

/// Plays `fixtures` in order. Each fixture has a random source of its own,
/// set up by the seed of the run plus the place of the fixture, so that no
/// match depends on another. A match that fails is an error at its place and
/// leaves the others as they are.
pub fn play_fixtures(
    teams: &Vec<TeamWithPlayers>,
    fixtures: &Vec<Match>,
    standings: &Vec<u32>,
    seed: u64,
) -> (outcomes: Vec<Result<Match, SimulationError>>)
    ensures
        outcomes.len() == fixtures.len(),
        forall|k: int|
            0 <= k < outcomes.len() ==> outcome_record(#[trigger] outcomes[k]) == match_outcome(
                teams@,
                fixtures[k]@,
                standings@,
                fixture_seed(seed, k as nat),
            ),
        forall|k: int|
            0 <= k < outcomes.len() && fixtures[k]@.well_formed() ==> (
            #[trigger] outcomes[k] matches Ok(played) ==> {
                &&& played@.well_formed()
                &&& played@.home_goals() + played@.away_goals() == played.goals.len()
            }),
        forall|k: int|
            0 <= k < outcomes.len() && fixtures[k].goals.len() == 0 ==> (
            #[trigger] outcomes[k] matches Ok(played) ==> played@.chronological_within(MINUTES)),
{
    let mut outcomes: Vec<Result<Match, SimulationError>> = Vec::new();
    let mut index: usize = 0;
    while index < fixtures.len()
        invariant
            index <= fixtures.len(),
            outcomes.len() == index,
            forall|k: int|
                0 <= k < index ==> outcome_record(#[trigger] outcomes[k]) == match_outcome(
                    teams@,
                    fixtures[k]@,
                    standings@,
                    fixture_seed(seed, k as nat),
                ),
            forall|k: int|
                0 <= k < index && fixtures[k]@.well_formed() ==> (
                #[trigger] outcomes[k] matches Ok(played) ==> {
                    &&& played@.well_formed()
                    &&& played@.home_goals() + played@.away_goals() == played.goals.len()
                }),
            forall|k: int|
                0 <= k < index && fixtures[k].goals.len() == 0 ==> (
                #[trigger] outcomes[k] matches Ok(played) ==> played@.chronological_within(
                    MINUTES,
                )),
        decreases fixtures.len() - index,
    {
        let outcome = simulate_match(
            teams,
            &fixtures[index],
            standings,
            seed_of_fixture(seed, index),
        );
        proof {
            if outcome is Ok && fixtures[index as int]@.well_formed() {
                lemma_score_counts_every_goal(outcome->Ok_0@);
            }
        }
        outcomes.push(outcome);
        index += 1;
    }
    outcomes
}

/// Plays the fixtures of a league, in the order of `league_fixtures`, each
/// with the seed of the run plus its place. Every match that is played to its
/// end is well formed, and its score accounts for each of its goals.
pub fn simulate(teams: &Vec<TeamWithPlayers>, standings: Vec<u32>, seed: u64) -> (outcomes: Vec<
    Result<Match, SimulationError>,
>)
    ensures
        outcomes.len() == league_fixtures(teams@).len(),
        forall|k: int|
            0 <= k < outcomes.len() ==> outcome_record(#[trigger] outcomes[k]) == match_outcome(
                teams@,
                league_fixtures(teams@)[k],
                standings@,
                fixture_seed(seed, k as nat),
            ),
        forall|k: int|
            0 <= k < outcomes.len() ==> (#[trigger] outcomes[k] matches Ok(played) ==> {
                &&& played@.well_formed()
                &&& played@.home_goals() + played@.away_goals() == played.goals.len()
                &&& played@.chronological_within(MINUTES)
            }),
{
    let fixtures = make_matches(teams);
    proof {
    }
    play_fixtures(teams, &fixtures, &standings, seed)
}

/// How the fixtures of a league are drawn up.
#[derive(PartialEq, Eq, Structural, Clone, Copy, Debug)]
pub enum SchedulingPolicy {
    /// Each team is at home to the teams listed before it: half a round
    /// robin, dependent on the order of the list. This is what `make_matches`
    /// draws up.
    PartialOrderedRoundRobin,
    /// Each team is at home to every team of another id.
    FullRoundRobin,
}

/// The fixtures in which the team at place `home` receives those of the
/// first `count` teams that have another id, in list order.
pub open spec fn home_fixtures_among(teams: Seq<TeamWithPlayers>, home: int, count: nat) -> Seq<
    MatchRecord,
>
    decreases count,
{
    if count == 0 {
        Seq::empty()
    } else if teams[count - 1].team.id == teams[home].team.id {
        home_fixtures_among(teams, home, (count - 1) as nat)
    } else {
        home_fixtures_among(teams, home, (count - 1) as nat).push(
            fixture(teams[home].team.id, teams[count - 1].team.id),
        )
    }
}

/// The fixtures of a full round robin for the first `count` teams as home
/// sides, team after team.
pub open spec fn full_fixtures_of_first(teams: Seq<TeamWithPlayers>, count: nat) -> Seq<
    MatchRecord,
>
    decreases count,
{
    if count == 0 {
        Seq::empty()
    } else {
        full_fixtures_of_first(teams, (count - 1) as nat) + home_fixtures_among(
            teams,
            count - 1,
            teams.len(),
        )
    }
}

/// The fixtures that `policy` draws up for a league.
pub open spec fn scheduled(teams: Seq<TeamWithPlayers>, policy: SchedulingPolicy) -> Seq<
    MatchRecord,
> {
    match policy {
        SchedulingPolicy::PartialOrderedRoundRobin => league_fixtures(teams),
        SchedulingPolicy::FullRoundRobin => full_fixtures_of_first(teams, teams.len()),
    }
}

/// Draws up the fixtures of a league by `policy`. No team meets itself.
pub fn schedule(teams: &Vec<TeamWithPlayers>, policy: SchedulingPolicy) -> (matches: Vec<Match>)
    ensures
        records(matches@) == scheduled(teams@, policy),
        forall|k: int|
            0 <= k < matches.len() ==> (#[trigger] matches[k]).team_home != matches[k].team_out
                && matches[k].goals.len() == 0,
{
    match policy {
        SchedulingPolicy::PartialOrderedRoundRobin => make_matches(teams),
        SchedulingPolicy::FullRoundRobin => {
            let mut matches: Vec<Match> = Vec::new();
            let mut home: usize = 0;
            while home < teams.len()
                invariant
                    home <= teams.len(),
                    records(matches@) == full_fixtures_of_first(teams@, home as nat),
                    forall|k: int|
                        0 <= k < matches.len() ==> (#[trigger] matches[k]).team_home
                            != matches[k].team_out && matches[k].goals.len() == 0,
                decreases teams.len() - home,
            {
                let home_id = teams[home].team.id;
                let ghost before = records(matches@);
                let mut away: usize = 0;
                while away < teams.len()
                    invariant
                        home < teams.len(),
                        away <= teams.len(),
                        home_id == teams@[home as int].team.id,
                        records(matches@) == before + home_fixtures_among(
                            teams@,
                            home as int,
                            away as nat,
                        ),
                        forall|k: int|
                            0 <= k < matches.len() ==> (#[trigger] matches[k]).team_home
                                != matches[k].team_out && matches[k].goals.len() == 0,
                    decreases teams.len() - away,
                {
                    if teams[away].team.id != home_id {
                        let ghost listed = matches@;
                        matches.push(
                            Match {
                                team_home: home_id,
                                team_out: teams[away].team.id,
                                goals: Vec::new(),
                            },
                        );
                        proof {
                            assert(records(matches@) == records(listed).push(
                                fixture(home_id, teams@[away as int].team.id),
                            ));
                        }
                    }
                    away += 1;
                }
                home += 1;
            }
            matches
        },
    }
}

} // verus!
