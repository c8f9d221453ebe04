//! The match as a state machine: what ninety minutes make of a fixture, a
//! league table and a seed.

use crate::configuration::{configuration_fault, standing_of};
use crate::entities::{
    lemma_same_rosters_same_players, roster_of, same_rosters, Goal, Match, MatchRecord, Player,
    Position, TeamWithPlayers,
};
use crate::errors::SimulationError;
use crate::pitch::{
    field_after_play, field_after_rebound, phase_at, phase_of, play_on, rebound_from,
    shot_goes_in, shot_scores, variance_ceiling, variance_ceiling_of, Phase, KICK_OFF,
    MAX_EFFORT, MAX_FIELD, MAX_SECTOR, MAX_VARIANCE, REBOUND, RESTART_AFTER_AWAY_GOAL,
    RESTART_AFTER_HOME_GOAL,
};
use crate::random::{
    drawn_value, drawn_values, seeded_state, state_after_draw, state_after_draws, RandomSource,
};
use crate::sectors::{
    aggregate, lemma_strengths_fit, no_player_of, noised, sector_totals, SectorStrengths,
};
use crate::selector::{select_player, selected_player, state_after_selection};
use vstd::prelude::*;

verus! {

/// The number of minutes in a match.
pub const MINUTES: u32 = 90;

/// The standing factor of a minute is drawn from the range that starts
/// here, in thousandths.
pub const STANDING_FACTOR_LOW: u64 = 1200;

/// The end of the range of the standing factor; the end is not in the range.
pub const STANDING_FACTOR_HIGH: u64 = 1600;

/// The lower end of every play variance range, in thousandths.
pub const VARIANCE_LOW: u64 = 920;

/// The noise factor of a player is drawn from the range that starts here,
/// in thousandths.
pub const NOISE_LOW: u64 = 1050;

/// The end of the range of the noise factor; the end is not in the range.
pub const NOISE_HIGH: u64 = 1250;

/// The pick of a shot is drawn from `0..GOAL_PICK_RANGE`.
pub const GOAL_PICK_RANGE: u64 = 100;

/// The goal variance of a shot is drawn from the range that starts here, in
/// thousandths.
pub const GOAL_VARIANCE_LOW: u64 = 900;

/// The end of the range of the goal variance; the end is not in the range.
pub const GOAL_VARIANCE_HIGH: u64 = 1100;

/// The lineups of a match: the two teams and the players they field.
pub struct Lineups {
    pub home: u32,
    pub away: u32,
    pub home_players: Seq<Player>,
    pub away_players: Seq<Player>,
}

/// The two sides of a match: their lineups and where they stand in the table.
pub struct Sides {
    pub lineups: Lineups,
    pub home_standing: u32,
    pub away_standing: u32,
}

/// The lineups of `game` with these players.
pub open spec fn lineups_with(
    game: MatchRecord,
    home_players: Seq<Player>,
    away_players: Seq<Player>,
) -> Lineups {
    Lineups { home: game.team_home, away: game.team_out, home_players, away_players }
}

/// The sides of `game` with these players and standings.
pub open spec fn sides_with(
    game: MatchRecord,
    home_players: Seq<Player>,
    away_players: Seq<Player>,
    home_standing: u32,
    away_standing: u32,
) -> Sides {
    Sides { lineups: lineups_with(game, home_players, away_players), home_standing, away_standing }
}

/// A match that goes on: at `field`, with these goals and this state of the
/// random source.
pub open spec fn going_on(field: int, goals: Seq<Goal>, state: Seq<u8>) -> Progress {
    Progress { field, goals, state, failure: None }
}

/// The state of a match between two minutes.
pub struct Progress {
    /// The field position.
    pub field: int,
    /// The goals so far, in the order they fell.
    pub goals: Seq<Goal>,
    /// The state of the random source.
    pub state: Seq<u8>,
    /// Why the match was broken off, if it was.
    pub failure: Option<SimulationError>,
}

/// What the random source decides in a minute before the phase is looked at,
/// in the order of the draws: the standing factor, the play variance of the
/// home side and of the away side, then a noise factor for each home player
/// and for each away player.
pub struct MinuteDraws {
    pub standing_factor: u64,
    pub home_variance: u64,
    pub away_variance: u64,
    pub home_noises: Seq<u64>,
    pub away_noises: Seq<u64>,
    /// The state of the random source after these draws.
    pub state: Seq<u8>,
}

/// The draws of a minute that starts with the random source in `state`, for
/// sides of `home_count` and `away_count` players.
pub open spec fn minute_draws(
    home_count: nat,
    away_count: nat,
    home_standing: u32,
    away_standing: u32,
    state: Seq<u8>,
) -> MinuteDraws {
    let standing_factor = drawn_value(state, STANDING_FACTOR_LOW, STANDING_FACTOR_HIGH);
    let state1 = state_after_draw(state, STANDING_FACTOR_LOW, STANDING_FACTOR_HIGH);
    let home_ceiling = variance_ceiling(home_standing, standing_factor) as u64;
    let away_ceiling = variance_ceiling(away_standing, standing_factor) as u64;
    let home_variance = drawn_value(state1, VARIANCE_LOW, home_ceiling);
    let state2 = state_after_draw(state1, VARIANCE_LOW, home_ceiling);
    let away_variance = drawn_value(state2, VARIANCE_LOW, away_ceiling);
    let state3 = state_after_draw(state2, VARIANCE_LOW, away_ceiling);
    let home_noises = drawn_values(state3, home_count, NOISE_LOW, NOISE_HIGH);
    let state4 = state_after_draws(state3, home_count, NOISE_LOW, NOISE_HIGH);
    let away_noises = drawn_values(state4, away_count, NOISE_LOW, NOISE_HIGH);
    let state5 = state_after_draws(state4, away_count, NOISE_LOW, NOISE_HIGH);
    MinuteDraws {
        standing_factor,
        home_variance,
        away_variance,
        home_noises,
        away_noises,
        state: state5,
    }
}

/// Whether an attacker among `players` has the identity `id`.
pub open spec fn has_attacker(players: Seq<Player>, id: u32) -> bool {
    exists|i: int|
        0 <= i < players.len() && (#[trigger] players[i]).id == id && players[i].position
            == Position::Attacker
}

/// Whether `goal` is credited to an attacker of the side that scored it.
pub open spec fn credited(goal: Goal, lineups: Lineups) -> bool {
    ||| goal.team_id == lineups.home && has_attacker(lineups.home_players, goal.player_id)
    ||| goal.team_id == lineups.away && has_attacker(lineups.away_players, goal.player_id)
}

/// Whether `failure` says that a side of `lineups` scored in `minute` and has
/// no attacker to credit.
pub open spec fn uncredited(failure: SimulationError, lineups: Lineups, minute: u32) -> bool {
    ||| failure == (SimulationError::NoEligiblePlayer {
        team: lineups.home,
        role: Position::Attacker,
        minute,
    }) && no_player_of(lineups.home_players, Position::Attacker)
    ||| failure == (SimulationError::NoEligiblePlayer {
        team: lineups.away,
        role: Position::Attacker,
        minute,
    }) && no_player_of(lineups.away_players, Position::Attacker)
}

/// The match after a goal of `team` in `minute`: an attacker among `players`
/// is selected and credited, and play restarts at `restart`. Where the side
/// has no attacker, the match is broken off.
pub open spec fn after_goal(
    before: Progress,
    minute: u32,
    team: u32,
    players: Seq<Player>,
    restart: int,
    state: Seq<u8>,
) -> Progress {
    match selected_player(team, players, Position::Attacker, state) {
        Ok(scorer) => Progress {
            field: restart,
            goals: before.goals.push(Goal { time: minute, team_id: team, player_id: scorer.id }),
            state: state_after_selection(players, Position::Attacker, state),
            failure: None,
        },
        Err(_) => Progress {
            field: before.field,
            goals: before.goals,
            state,
            failure: Some(
                SimulationError::NoEligiblePlayer { team, role: Position::Attacker, minute },
            ),
        },
    }
}

/// The match after a shot is resolved. Beyond the away goal line the home
/// side shoots at the away keeper, beyond the home goal line the away side at
/// the home keeper. The pick and the goal variance are drawn, in this order.
/// A shot that goes in is a goal; one that does not is thrown back.
pub open spec fn after_shot(
    lineups: Lineups,
    before: Progress,
    minute: u32,
    home_keeper: nat,
    away_keeper: nat,
    state: Seq<u8>,
) -> Progress {
    let goal_pick = drawn_value(state, 0, GOAL_PICK_RANGE);
    let state1 = state_after_draw(state, 0, GOAL_PICK_RANGE);
    let goal_variance = drawn_value(state1, GOAL_VARIANCE_LOW, GOAL_VARIANCE_HIGH);
    let state2 = state_after_draw(state1, GOAL_VARIANCE_LOW, GOAL_VARIANCE_HIGH);
    let keeper = if before.field > 100 {
        away_keeper
    } else {
        home_keeper
    };
    if !shot_scores(goal_pick as nat, keeper, goal_variance as nat) {
        Progress {
            field: field_after_rebound(before.field),
            goals: before.goals,
            state: state2,
            failure: None,
        }
    } else if before.field > 100 {
        after_goal(
            before,
            minute,
            lineups.home,
            lineups.home_players,
            RESTART_AFTER_HOME_GOAL as int,
            state2,
        )
    } else {
        after_goal(
            before,
            minute,
            lineups.away,
            lineups.away_players,
            RESTART_AFTER_AWAY_GOAL as int,
            state2,
        )
    }
}

/// The match after the minute `minute`. A match that was broken off stays as
/// it is.
pub open spec fn after_minute(sides: Sides, before: Progress, minute: u32) -> Progress {
    if before.failure is Some {
        before
    } else {
        let draws = minute_draws(
            sides.lineups.home_players.len(),
            sides.lineups.away_players.len(),
            sides.home_standing,
            sides.away_standing,
            before.state,
        );
        let home = sector_totals(sides.lineups.home_players, draws.home_noises);
        let away = sector_totals(sides.lineups.away_players, draws.away_noises);
        if phase_at(before.field) == Phase::GoalResolution {
            after_shot(
                sides.lineups,
                before,
                minute,
                home.goalkeeping,
                away.goalkeeping,
                draws.state,
            )
        } else {
            Progress {
                field: field_after_play(
                    before.field,
                    home,
                    away,
                    draws.home_variance as nat,
                    draws.away_variance as nat,
                ),
                goals: before.goals,
                state: draws.state,
                failure: None,
            }
        }
    }
}

/// The match after its first `minutes` minutes.
pub open spec fn progress_after(sides: Sides, start: Progress, minutes: nat) -> Progress
    decreases minutes,
{
    if minutes == 0 {
        start
    } else {
        after_minute(
            sides,
            progress_after(sides, start, (minutes - 1) as nat),
            (minutes - 1) as u32,
        )
    }
}

/// The two sides of `game` as `teams` and `standings` describe them. A side
/// without a roster fields nobody.
pub open spec fn sides_of(
    teams: Seq<TeamWithPlayers>,
    game: MatchRecord,
    standings: Seq<u32>,
) -> Sides {
    sides_with(
        game,
        roster_of(teams, game.team_home),
        roster_of(teams, game.team_out),
        standing_of(standings, game.team_home).unwrap(),
        standing_of(standings, game.team_out).unwrap(),
    )
}

/// The match at kick-off: at the kick-off position, with the goals that the
/// fixture brings along, and the random source as `seed` sets it up.
pub open spec fn kick_off(game: MatchRecord, seed: u64) -> Progress {
    Progress { field: KICK_OFF as int, goals: game.goals, state: seeded_state(seed), failure: None }
}

/// What playing `game` gives: the fault of the configuration where it has
/// one; else the failure that broke the match off, or the fixture with the
/// goals of its ninety minutes.
pub open spec fn match_outcome(
    teams: Seq<TeamWithPlayers>,
    game: MatchRecord,
    standings: Seq<u32>,
    seed: u64,
) -> Result<MatchRecord, SimulationError> {
    match configuration_fault(teams, game, standings) {
        Some(fault) => Err(fault),
        None => {
            let end = progress_after(
                sides_of(teams, game, standings),
                kick_off(game, seed),
                MINUTES as nat,
            );
            match end.failure {
                Some(failure) => Err(failure),
                None => Ok(
                    MatchRecord {
                        team_home: game.team_home,
                        team_out: game.team_out,
                        goals: end.goals,
                    },
                ),
            }
        },
    }
}

/// A minute that starts on 0, 25, 75 or 100 is in no phase: whatever is
/// drawn, the field position stays where it is and no goal falls.
pub proof fn lemma_boundary_minute(sides: Sides, before: Progress, minute: u32)
    requires
        before.failure is None,
        before.field == 0 || before.field == 25 || before.field == 75 || before.field == 100,
    ensures
        after_minute(sides, before, minute).field == before.field,
        after_minute(sides, before, minute).goals == before.goals,
        after_minute(sides, before, minute).failure is None,
{
}

/// A minute moves the field position by the rules of exactly one phase: open
/// play below 100 and above 0 leaves the goals as they are, and only a shot
/// from beyond a goal line can add a goal or break the match off.
pub proof fn lemma_minute_by_phase(sides: Sides, before: Progress, minute: u32)
    requires
        before.failure is None,
    ensures
        0 <= before.field <= 100 ==> after_minute(sides, before, minute).goals == before.goals
            && after_minute(sides, before, minute).failure is None,
        (before.field > 100 || before.field < 0) ==> {
            let after = after_minute(sides, before, minute);
            ||| after.failure is Some && after.goals == before.goals
            ||| after.goals == before.goals && after.field == field_after_rebound(before.field)
            ||| after.goals.len() == before.goals.len() + 1 && before.field > 100 && after.field
                == RESTART_AFTER_HOME_GOAL
            ||| after.goals.len() == before.goals.len() + 1 && before.field < 0 && after.field
                == RESTART_AFTER_AWAY_GOAL
        },
{
}

/// The outcome of a match is a function of the rosters as values: lists of
/// equal rosters give the same outcome on the same fixture, table and seed.
pub proof fn lemma_outcome_is_determined(
    first: Seq<TeamWithPlayers>,
    second: Seq<TeamWithPlayers>,
    game: MatchRecord,
    standings: Seq<u32>,
    seed: u64,
)
    requires
        same_rosters(first, second),
    ensures
        match_outcome(first, game, standings, seed) == match_outcome(
            second,
            game,
            standings,
            seed,
        ),
{
    lemma_same_rosters_same_players(first, second, game.team_home);
    lemma_same_rosters_same_players(first, second, game.team_out);
}

/// Once a match is broken off, later minutes change nothing.
pub proof fn lemma_failure_is_final(sides: Sides, start: Progress, broken: nat, later: nat)
    requires
        broken <= later,
        progress_after(sides, start, broken).failure is Some,
    ensures
        progress_after(sides, start, later) == progress_after(sides, start, broken),
    decreases later,
{
    if later > broken {
        lemma_failure_is_final(sides, start, broken, (later - 1) as nat);
    }
}

/// What a minute starts from, once the draws that every minute makes are
/// made: the play variances and the strengths of the two sides.
pub struct MinuteStrengths {
    pub home_variance: u64,
    pub away_variance: u64,
    pub home: SectorStrengths,
    pub away: SectorStrengths,
}

/// Makes the draws that every minute starts with: the standing factor, the
/// two play variances, and the noise of every player. One standing factor
/// sets the ceilings of both variances.
pub fn draw_minute(
    home_players: &Vec<Player>,
    away_players: &Vec<Player>,
    home_standing: u32,
    away_standing: u32,
    source: &mut RandomSource,
) -> (drawn: MinuteStrengths)
    ensures
        ({
            let draws = minute_draws(
                home_players@.len(),
                away_players@.len(),
                home_standing,
                away_standing,
                old(source).state(),
            );
            &&& drawn.home_variance == draws.home_variance
            &&& drawn.away_variance == draws.away_variance
            &&& drawn.home@ == sector_totals(home_players@, draws.home_noises)
            &&& drawn.away@ == sector_totals(away_players@, draws.away_noises)
            &&& final(source).state() == draws.state
        }),
        exists|factor: u64|
            {
                &&& STANDING_FACTOR_LOW <= factor < STANDING_FACTOR_HIGH
                &&& VARIANCE_LOW <= drawn.home_variance < #[trigger] variance_ceiling(
                    home_standing,
                    factor,
                )
                &&& VARIANCE_LOW <= drawn.away_variance < variance_ceiling(away_standing, factor)
            },
        drawn.home_variance <= MAX_VARIANCE,
        drawn.away_variance <= MAX_VARIANCE,
        drawn.home.within_limits(),
        drawn.away.within_limits(),
{
    let standing_factor = source.draw(STANDING_FACTOR_LOW, STANDING_FACTOR_HIGH);
    let home_ceiling = variance_ceiling_of(home_standing, standing_factor);
    let away_ceiling = variance_ceiling_of(away_standing, standing_factor);
    let home_variance = source.draw(VARIANCE_LOW, home_ceiling);
    let away_variance = source.draw(VARIANCE_LOW, away_ceiling);
    let home = aggregate(home_players, source, NOISE_LOW, NOISE_HIGH);
    let away = aggregate(away_players, source, NOISE_LOW, NOISE_HIGH);
    proof {
        lemma_strengths_fit(home, home_players.len() as nat, noised(255, NOISE_HIGH));
        lemma_strengths_fit(away, away_players.len() as nat, noised(255, NOISE_HIGH));
    }
    MinuteStrengths { home_variance, away_variance, home, away }
}

/// Resolves a shot from `field`, a position beyond one of the goal lines, in
/// `minute`: draws the pick and the goal variance, and where the shot goes in
/// selects the scorer. A goal is added to `game`; the new field position is
/// returned. Where the side that scores has no attacker, the error says so
/// and `game` stays as it is.
pub fn take_shot(
    game: &mut Match,
    home_players: &Vec<Player>,
    away_players: &Vec<Player>,
    field: i128,
    minute: u32,
    home_keeper: u128,
    away_keeper: u128,
    source: &mut RandomSource,
) -> (next: Result<i128, SimulationError>)
    requires
        field > 100 || field < 0,
        -MAX_FIELD <= field <= MAX_FIELD,
        home_keeper <= MAX_SECTOR,
        away_keeper <= MAX_SECTOR,
    ensures
        ({
            let after = after_shot(
                lineups_with(old(game)@, home_players@, away_players@),
                going_on(field as int, old(game).goals@, old(source).state()),
                minute,
                home_keeper as nat,
                away_keeper as nat,
                old(source).state(),
            );
            match next {
                Ok(position) => after == going_on(
                    position as int,
                    final(game).goals@,
                    final(source).state(),
                ),
                Err(failure) => after.failure == Some(failure) && final(game)@ == old(game)@,
            }
        }),
        final(game).team_home == old(game).team_home,
        final(game).team_out == old(game).team_out,
        next matches Err(failure) ==> uncredited(
            failure,
            lineups_with(old(game)@, home_players@, away_players@),
            minute,
        ),
        next matches Ok(position) ==> (field - REBOUND <= position <= field + REBOUND || position
            == RESTART_AFTER_HOME_GOAL || position == RESTART_AFTER_AWAY_GOAL),
        final(game).goals@ == old(game).goals@ || exists|goal: Goal|
            {
                &&& final(game).goals@ == old(game).goals@.push(goal)
                &&& goal.time == minute
                &&& credited(goal, lineups_with(old(game)@, home_players@, away_players@))
            },
{
    let goal_pick = source.draw(0, GOAL_PICK_RANGE);
    let goal_variance = source.draw(GOAL_VARIANCE_LOW, GOAL_VARIANCE_HIGH);
    let home_shoots = field > 100;
    let keeper = if home_shoots {
        away_keeper
    } else {
        home_keeper
    };
    if !shot_goes_in(goal_pick, keeper, goal_variance) {
        return Ok(rebound_from(field));
    }
    let (team, scorers, restart) = if home_shoots {
        (game.team_home, home_players, RESTART_AFTER_HOME_GOAL)
    } else {
        (game.team_out, away_players, RESTART_AFTER_AWAY_GOAL)
    };
    match select_player(team, scorers, Position::Attacker, source) {
        Ok(scorer) => {
            let goal = Goal { time: minute, team_id: team, player_id: scorer.id };
            game.add_goal(goal);
            Ok(restart)
        },
        Err(_) => Err(
            SimulationError::NoEligiblePlayer { team, role: Position::Attacker, minute },
        ),
    }
}

/// Plays the minute `minute` of `game` from the position `field`: makes the
/// draws of the minute, then resolves a shot or lets the sides play on, as
/// the phase of `field` asks. A goal is added to `game`; the new field
/// position is returned. An error breaks the match off and leaves `game` as
/// it is.
pub fn play_minute(
    game: &mut Match,
    home_players: &Vec<Player>,
    away_players: &Vec<Player>,
    home_standing: u32,
    away_standing: u32,
    field: i128,
    minute: u32,
    source: &mut RandomSource,
) -> (next: Result<i128, SimulationError>)
    requires
        -MAX_FIELD <= field <= MAX_FIELD,
    ensures
        ({
            let after = after_minute(
                sides_with(
                    old(game)@,
                    home_players@,
                    away_players@,
                    home_standing,
                    away_standing,
                ),
                going_on(field as int, old(game).goals@, old(source).state()),
                minute,
            );
            match next {
                Ok(position) => after == going_on(
                    position as int,
                    final(game).goals@,
                    final(source).state(),
                ),
                Err(failure) => after.failure == Some(failure) && final(game)@ == old(game)@,
            }
        }),
        final(game).team_home == old(game).team_home,
        final(game).team_out == old(game).team_out,
        next matches Err(failure) ==> uncredited(
            failure,
            lineups_with(old(game)@, home_players@, away_players@),
            minute,
        ),
        next matches Ok(position) ==> (field - MAX_EFFORT <= position <= field + MAX_EFFORT
            || position == RESTART_AFTER_HOME_GOAL || position == RESTART_AFTER_AWAY_GOAL),
        phase_at(field as int) == Phase::Boundary ==> next == Ok::<i128, SimulationError>(field)
            && final(game)@ == old(game)@,
        0 <= field <= 100 ==> next is Ok && final(game)@ == old(game)@,
        final(game).goals@ == old(game).goals@ || exists|goal: Goal|
            {
                &&& final(game).goals@ == old(game).goals@.push(goal)
                &&& goal.time == minute
                &&& credited(goal, lineups_with(old(game)@, home_players@, away_players@))
            },
{
    let drawn = draw_minute(home_players, away_players, home_standing, away_standing, source);
    if phase_of(field) == Phase::GoalResolution {
        take_shot(
            game,
            home_players,
            away_players,
            field,
            minute,
            drawn.home.goalkeeping,
            drawn.away.goalkeeping,
            source,
        )
    } else {
        Ok(play_on(field, &drawn.home, &drawn.away, drawn.home_variance, drawn.away_variance))
    }
}

} // verus!
