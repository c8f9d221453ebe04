//! The data of a league: players, teams, rosters, goals and matches.

use vstd::prelude::*;

verus! {

/// The role a player has on the field.
#[derive(PartialEq, Eq, Structural, Clone, Copy, Debug)]
pub enum Position {
    Attacker,
    Midfield,
    Defender,
    Goalkeeper,
    NotOnTheField,
}

impl Default for Position {
    fn default() -> (position: Position)
        ensures
            position == Position::NotOnTheField,
    {
        Position::NotOnTheField
    }
}

/// A player. The engine reads `id`, `position` and `quality`; the rest is
/// carried along.
#[derive(PartialEq, Eq, Debug)]
pub struct Player {
    pub id: u32,
    pub name: String,
    pub dob: String,
    pub height: String,
    pub position: Position,
    pub quality: u8,
}

impl Clone for Player {
    fn clone(&self) -> (copy: Player)
        ensures
            copy == *self,
    {
        Player {
            id: self.id,
            name: self.name.clone(),
            dob: self.dob.clone(),
            height: self.height.clone(),
            position: self.position,
            quality: self.quality,
        }
    }
}

impl Default for Player {
    fn default() -> (player: Player)
        ensures
            player.id == 0,
            player.name@ == Seq::<char>::empty(),
            player.dob@ == Seq::<char>::empty(),
            player.height@ == Seq::<char>::empty(),
            player.position == Position::NotOnTheField,
            player.quality == 0,
    {
        Player {
            id: 0,
            name: String::new(),
            dob: String::new(),
            height: String::new(),
            position: Position::NotOnTheField,
            quality: 0,
        }
    }
}

/// The playing surface of a stadium.
#[derive(PartialEq, Eq, Structural, Clone, Copy, Debug)]
pub enum Surface {
    Unknown,
    Grass,
    ArtificialGrass,
    Hybrid,
}

impl Default for Surface {
    fn default() -> (surface: Surface)
        ensures
            surface == Surface::Unknown,
    {
        Surface::Unknown
    }
}

/// A club. The engine reads `id` only.
#[derive(PartialEq, Eq, Debug)]
pub struct Team {
    pub id: u32,
    pub name: String,
    pub city: String,
    pub stadium: String,
    pub surface: Surface,
    pub since: u32,
}

impl Clone for Team {
    fn clone(&self) -> (copy: Team)
        ensures
            copy == *self,
    {
        Team {
            id: self.id,
            name: self.name.clone(),
            city: self.city.clone(),
            stadium: self.stadium.clone(),
            surface: self.surface,
            since: self.since,
        }
    }
}

impl Default for Team {
    fn default() -> (team: Team)
        ensures
            team.id == 0,
            team.name@ == Seq::<char>::empty(),
            team.city@ == Seq::<char>::empty(),
            team.stadium@ == Seq::<char>::empty(),
            team.surface == Surface::Unknown,
            team.since == 0,
    {
        Team {
            id: 0,
            name: String::new(),
            city: String::new(),
            stadium: String::new(),
            surface: Surface::Unknown,
            since: 0,
        }
    }
}

/// A roster: a team and its players, in squad order.
#[derive(PartialEq, Eq, Debug)]
pub struct TeamWithPlayers {
    pub team: Team,
    pub players: Vec<Player>,
}

/// The mathematical value of a roster.
pub struct Roster {
    pub team: Team,
    pub players: Seq<Player>,
}

impl View for TeamWithPlayers {
    type V = Roster;

    open spec fn view(&self) -> Roster {
        Roster { team: self.team, players: self.players@ }
    }
}

/// A copy of `players`, element by element.
pub fn copy_players(players: &Vec<Player>) -> (copy: Vec<Player>)
    ensures
        copy@ == players@,
{
    let mut copy: Vec<Player> = Vec::new();
    let mut index: usize = 0;
    while index < players.len()
        invariant
            index <= players.len(),
            copy@ == players@.take(index as int),
        decreases players.len() - index,
    {
        copy.push(players[index].clone());
        index += 1;
    }
    copy
}

impl Clone for TeamWithPlayers {
    fn clone(&self) -> (copy: TeamWithPlayers)
        ensures
            copy@ == self@,
    {
        TeamWithPlayers { team: self.team.clone(), players: copy_players(&self.players) }
    }
}

impl Default for TeamWithPlayers {
    fn default() -> (roster: TeamWithPlayers)
        ensures
            roster.team.id == 0,
            roster.players@ == Seq::<Player>::empty(),
    {
        TeamWithPlayers { team: Team::default(), players: Vec::new() }
    }
}

/// A goal: the minute it fell in, the team that scored and the scorer.
#[derive(PartialEq, Eq, Structural, Clone, Copy, Debug)]
pub struct Goal {
    pub time: u32,
    pub team_id: u32,
    pub player_id: u32,
}

impl Default for Goal {
    fn default() -> (goal: Goal)
        ensures
            goal == (Goal { time: 0, team_id: 0, player_id: 0 }),
    {
        Goal { time: 0, team_id: 0, player_id: 0 }
    }
}

/// A fixture and, once it has been played, its goals in the order they fell.
/// The score is not stored: it is counted from the goals.
#[derive(PartialEq, Eq, Debug)]
pub struct Match {
    pub team_home: u32,
    pub team_out: u32,
    pub goals: Vec<Goal>,
}

/// The mathematical value of a match.
pub struct MatchRecord {
    pub team_home: u32,
    pub team_out: u32,
    pub goals: Seq<Goal>,
}

impl View for Match {
    type V = MatchRecord;

    open spec fn view(&self) -> MatchRecord {
        MatchRecord { team_home: self.team_home, team_out: self.team_out, goals: self.goals@ }
    }
}

impl Clone for Match {
    fn clone(&self) -> (copy: Match)
        ensures
            copy@ == self@,
    {
        let mut goals: Vec<Goal> = Vec::new();
        let mut index: usize = 0;
        while index < self.goals.len()
            invariant
                index <= self.goals.len(),
                goals@ == self.goals@.take(index as int),
            decreases self.goals.len() - index,
        {
            goals.push(self.goals[index]);
            index += 1;
        }
        assert(self.goals@.take(index as int) == self.goals@);
        Match { team_home: self.team_home, team_out: self.team_out, goals }
    }
}

impl Default for Match {
    fn default() -> (game: Match)
        ensures
            game@ == (MatchRecord { team_home: 0, team_out: 0, goals: Seq::empty() }),
    {
        Match { team_home: 0, team_out: 0, goals: Vec::new() }
    }
}

/// Whether some roster in `teams` belongs to the team `id`.
pub open spec fn has_team(teams: Seq<TeamWithPlayers>, id: u32) -> bool {
    exists|i: int| 0 <= i < teams.len() && teams[i].team.id == id
}

/// Whether `i` is the first place in `teams` at which the team `id` stands.
pub open spec fn is_first_team_with(teams: Seq<TeamWithPlayers>, id: u32, i: int) -> bool {
    &&& 0 <= i < teams.len()
    &&& teams[i].team.id == id
    &&& forall|j: int| 0 <= j < i ==> teams[j].team.id != id
}

/// The first place in `teams` at which the team `id` stands, where there is one.
pub open spec fn first_team_index(teams: Seq<TeamWithPlayers>, id: u32) -> int {
    choose|i: int| is_first_team_with(teams, id, i)
}

/// The players of the first roster of team `id`; none where `teams` has no
/// such roster.
pub open spec fn roster_of(teams: Seq<TeamWithPlayers>, id: u32) -> Seq<Player> {
    if has_team(teams, id) {
        teams[first_team_index(teams, id)].players@
    } else {
        Seq::empty()
    }
}

/// There is one first place only: whatever is a first place is the one that
/// `first_team_index` names.
pub proof fn lemma_first_team_index(teams: Seq<TeamWithPlayers>, id: u32, i: int)
    requires
        is_first_team_with(teams, id, i),
    ensures
        has_team(teams, id),
        first_team_index(teams, id) == i,
{
}

/// Where a team has a roster it has a first one, at or before any of its places.
pub proof fn lemma_first_team_exists(teams: Seq<TeamWithPlayers>, id: u32, i: int)
    requires
        0 <= i < teams.len(),
        teams[i].team.id == id,
    ensures
        is_first_team_with(teams, id, first_team_index(teams, id)),
        first_team_index(teams, id) <= i,
    decreases i,
{
    if exists|j: int| 0 <= j < i && teams[j].team.id == id {
        let j = choose|j: int| 0 <= j < i && teams[j].team.id == id;
        lemma_first_team_exists(teams, id, j);
    } else {
        lemma_first_team_index(teams, id, i);
    }
}

/// How many of `goals` the team `team` scored.
pub open spec fn goals_of(goals: Seq<Goal>, team: u32) -> nat
    decreases goals.len(),
{
    if goals.len() == 0 {
        0
    } else {
        goals_of(goals.drop_last(), team) + if goals.last().team_id == team {
            1nat
        } else {
            0nat
        }
    }
}

/// Where every goal was scored by one of two different teams, the goals of
/// the two add up to all goals.
pub proof fn lemma_two_sides_share_the_goals(goals: Seq<Goal>, home: u32, away: u32)
    requires
        home != away,
        forall|i: int|
            0 <= i < goals.len() ==> (#[trigger] goals[i]).team_id == home || goals[i].team_id
                == away,
    ensures
        goals_of(goals, home) + goals_of(goals, away) == goals.len(),
    decreases goals.len(),
{
    if goals.len() > 0 {
        let rest = goals.drop_last();
        lemma_two_sides_share_the_goals(rest, home, away);
    }
}

impl MatchRecord {
    /// Goals of the home side.
    pub open spec fn home_goals(self) -> nat {
        goals_of(self.goals, self.team_home)
    }

    /// Goals of the away side.
    pub open spec fn away_goals(self) -> nat {
        goals_of(self.goals, self.team_out)
    }

    /// Whether the goals stand in the order of their minutes, each before
    /// the minute `minutes`.
    pub open spec fn chronological_within(self, minutes: u32) -> bool {
        &&& forall|i: int| 0 <= i < self.goals.len() ==> (#[trigger] self.goals[i]).time < minutes
        &&& forall|i: int, j: int|
            0 <= i <= j < self.goals.len() ==> (#[trigger] self.goals[i]).time <= (
            #[trigger] self.goals[j]).time
    }

    /// A played match is well formed when its two sides differ and each goal
    /// was scored by one of them.
    pub open spec fn well_formed(self) -> bool {
        &&& self.team_home != self.team_out
        &&& forall|i: int|
            0 <= i < self.goals.len() ==> (#[trigger] self.goals[i]).team_id == self.team_home
                || self.goals[i].team_id == self.team_out
    }
}

/// The score of a well-formed match accounts for every goal: the goals of
/// the home side and of the away side add up to the number of goals.
pub proof fn lemma_score_counts_every_goal(game: MatchRecord)
    requires
        game.well_formed(),
    ensures
        game.home_goals() + game.away_goals() == game.goals.len(),
{
    lemma_two_sides_share_the_goals(game.goals, game.team_home, game.team_out);
}

/// Two lists of rosters are the same where they list equal rosters in the
/// same order.
pub open spec fn same_rosters(first: Seq<TeamWithPlayers>, second: Seq<TeamWithPlayers>) -> bool {
    &&& first.len() == second.len()
    &&& forall|i: int| 0 <= i < first.len() ==> (#[trigger] first[i])@ == second[i]@
}

/// The same rosters field the same players for every team.
pub proof fn lemma_same_rosters_same_players(
    first: Seq<TeamWithPlayers>,
    second: Seq<TeamWithPlayers>,
    id: u32,
)
    requires
        same_rosters(first, second),
    ensures
        has_team(first, id) == has_team(second, id),
        has_team(first, id) ==> first_team_index(first, id) == first_team_index(second, id),
        roster_of(first, id) == roster_of(second, id),
{
    if has_team(first, id) {
        let i = choose|i: int| 0 <= i < first.len() && first[i].team.id == id;
        lemma_first_team_exists(first, id, i);
        let k = first_team_index(first, id);
        assert forall|j: int| 0 <= j < k implies second[j].team.id != id by {
            assert(first[j]@ == second[j]@);
        }
        lemma_first_team_index(second, id, k);
    } else if has_team(second, id) {
        let i = choose|i: int| 0 <= i < second.len() && second[i].team.id == id;
        assert(first[i]@ == second[i]@);
    }
}

impl Match {
    /// Appends `goal` to the goals of the match.
    pub fn add_goal(&mut self, goal: Goal)
        ensures
            final(self)@ == (MatchRecord { goals: old(self)@.goals.push(goal), ..old(self)@ }),
    {
        self.goals.push(goal);
    }

    /// A copy of the first roster in `teams` whose team is `id`.
    pub fn get_team(&self, teams: &Vec<TeamWithPlayers>, id: u32) -> (found: Option<
        TeamWithPlayers,
    >)
        ensures
            found is Some <==> has_team(teams@, id),
            found matches Some(roster) ==> roster@ == teams@[first_team_index(teams@, id)]@,
    {
        let mut index: usize = 0;
        while index < teams.len()
            invariant
                index <= teams.len(),
                forall|j: int| 0 <= j < index ==> teams@[j].team.id != id,
            decreases teams.len() - index,
        {
            if teams[index].team.id == id {
                proof {
                    lemma_first_team_index(teams@, id, index as int);
                }
                return Some(teams[index].clone());
            }
            index += 1;
        }
        None
    }

    /// The players of the home side and of the away side, each as the first
    /// roster of that team in `teams` lists them. A side without a roster has
    /// no players.
    pub fn get_players(&self, teams: &Vec<TeamWithPlayers>) -> (sides: (Vec<Player>, Vec<Player>))
        ensures
            sides.0@ == roster_of(teams@, self.team_home),
            sides.1@ == roster_of(teams@, self.team_out),
    {
        let home = match self.get_team(teams, self.team_home) {
            Some(roster) => roster.players,
            None => Vec::new(),
        };
        let away = match self.get_team(teams, self.team_out) {
            Some(roster) => roster.players,
            None => Vec::new(),
        };
        (home, away)
    }

    /// The number of goals that `team` scored in this match.
    pub fn goals_by(&self, team: u32) -> (count: usize)
        ensures
            count == goals_of(self.goals@, team),
    {
        let mut count: usize = 0;
        let mut index: usize = 0;
        while index < self.goals.len()
            invariant
                index <= self.goals.len(),
                count <= index,
                count == goals_of(self.goals@.take(index as int), team),
            decreases self.goals.len() - index,
        {
            assert(self.goals@.take(index + 1).drop_last() == self.goals@.take(index as int));
            if self.goals[index].team_id == team {
                count += 1;
            }
            index += 1;
        }
        assert(self.goals@.take(index as int) == self.goals@);
        count
    }

    /// The goals of the home side.
    pub fn home_goals(&self) -> (count: usize)
        ensures
            count == self@.home_goals(),
    {
        self.goals_by(self.team_home)
    }

    /// The goals of the away side.
    pub fn away_goals(&self) -> (count: usize)
        ensures
            count == self@.away_goals(),
    {
        self.goals_by(self.team_out)
    }
}

} // verus!
