use match_sim::entities::{Goal, Match, Player, Position, Surface, Team, TeamWithPlayers};

fn player(id: u32, position: Position, quality: u8) -> Player {
    Player {
        id,
        name: format!("player {}", id),
        dob: String::from("01/01/1990"),
        height: String::from("180 cm"),
        position,
        quality,
    }
}

fn roster(id: u32, players: Vec<Player>) -> TeamWithPlayers {
    TeamWithPlayers {
        team: Team {
            id,
            name: format!("team {}", id),
            city: String::from("city"),
            stadium: String::from("stadium"),
            surface: Surface::Grass,
            since: 1900,
        },
        players,
    }
}

#[test]
fn defaults_are_empty() {
    assert_eq!(Position::default(), Position::NotOnTheField);
    assert_eq!(Surface::default(), Surface::Unknown);
    let p = Player::default();
    assert_eq!(p.id, 0);
    assert_eq!(p.name, "");
    assert_eq!(p.position, Position::NotOnTheField);
    assert_eq!(p.quality, 0);
    let t = Team::default();
    assert_eq!(t.id, 0);
    assert_eq!(t.surface, Surface::Unknown);
    assert_eq!(TeamWithPlayers::default().players.len(), 0);
    assert_eq!(Goal::default(), Goal { time: 0, team_id: 0, player_id: 0 });
    let m = Match::default();
    assert_eq!((m.team_home, m.team_out, m.goals.len()), (0, 0, 0));
}

#[test]
fn clones_are_equal() {
    let r = roster(4, vec![player(1, Position::Attacker, 70), player(2, Position::Goalkeeper, 60)]);
    assert_eq!(r.clone(), r);
    let m = Match { team_home: 1, team_out: 2, goals: vec![Goal { time: 3, team_id: 1, player_id: 9 }] };
    assert_eq!(m.clone(), m);
}

#[test]
fn add_goal_appends() {
    let mut m = Match { team_home: 1, team_out: 2, goals: Vec::new() };
    m.add_goal(Goal { time: 10, team_id: 1, player_id: 7 });
    m.add_goal(Goal { time: 20, team_id: 2, player_id: 8 });
    assert_eq!(
        m.goals,
        vec![
            Goal { time: 10, team_id: 1, player_id: 7 },
            Goal { time: 20, team_id: 2, player_id: 8 }
        ]
    );
    assert_eq!((m.team_home, m.team_out), (1, 2));
}

#[test]
fn get_team_finds_the_first_roster_of_the_team() {
    let teams = vec![
        roster(1, vec![player(1, Position::Attacker, 70)]),
        roster(2, vec![player(2, Position::Defender, 71)]),
        roster(2, vec![player(3, Position::Midfield, 72)]),
    ];
    let m = Match { team_home: 1, team_out: 2, goals: Vec::new() };
    let found = m.get_team(&teams, 2).unwrap();
    assert_eq!(found, teams[1]);
    assert_eq!(m.get_team(&teams, 1), Some(teams[0].clone()));
    assert_eq!(m.get_team(&teams, 3), None);
    assert_eq!(m.get_team(&Vec::new(), 1), None);
}

#[test]
fn get_players_gives_both_sides() {
    let teams = vec![
        roster(1, vec![player(1, Position::Attacker, 70), player(4, Position::Goalkeeper, 50)]),
        roster(2, vec![player(2, Position::Defender, 71)]),
    ];
    let m = Match { team_home: 2, team_out: 1, goals: Vec::new() };
    let (home, away) = m.get_players(&teams);
    assert_eq!(home, teams[1].players);
    assert_eq!(away, teams[0].players);
}

#[test]
fn get_players_of_an_unknown_team_is_empty() {
    let teams = vec![roster(1, vec![player(1, Position::Attacker, 70)])];
    let m = Match { team_home: 9, team_out: 1, goals: Vec::new() };
    let (home, away) = m.get_players(&teams);
    assert!(home.is_empty());
    assert_eq!(away.len(), 1);
}

#[test]
fn score_is_counted_from_the_goals() {
    let m = Match {
        team_home: 1,
        team_out: 2,
        goals: vec![
            Goal { time: 1, team_id: 1, player_id: 7 },
            Goal { time: 5, team_id: 2, player_id: 8 },
            Goal { time: 9, team_id: 1, player_id: 7 },
        ],
    };
    assert_eq!(m.home_goals(), 2);
    assert_eq!(m.away_goals(), 1);
    assert_eq!(m.goals_by(3), 0);
    assert_eq!(m.home_goals() + m.away_goals(), m.goals.len());
}

#[test]
fn score_of_a_match_without_goals_is_nil_nil() {
    let m = Match { team_home: 1, team_out: 2, goals: Vec::new() };
    assert_eq!((m.home_goals(), m.away_goals()), (0, 0));
}
