use match_sim::entities::{Player, Position, Team};
use match_sim::errors::SquadError;
use match_sim::random::RandomSource;
use match_sim::squads::{
    call_up, count_role, find_shortage, is_picked, make_teams, pick_squad, Tally,
};

const ROLES: [Position; 5] = [
    Position::Attacker,
    Position::Midfield,
    Position::Defender,
    Position::Goalkeeper,
    Position::NotOnTheField,
];

fn player(id: u32, position: Position) -> Player {
    Player { id, position, quality: 60, ..Player::default() }
}

/// A pool of `size` players whose roles go round the five positions.
fn pool(size: u32) -> Vec<Player> {
    (0..size).map(|id| player(id, ROLES[id as usize % 5])).collect()
}

fn teams(count: u32) -> Vec<Team> {
    (1..=count).map(|id| Team { id, name: format!("team {}", id), ..Team::default() }).collect()
}

fn count(players: &Vec<Player>, role: Position) -> usize {
    players.iter().filter(|p| p.position == role).count()
}

#[test]
fn a_squad_has_four_three_three_and_one() {
    let mut source = RandomSource::from_seed(4);
    let rosters = make_teams(pool(60), teams(5), &mut source).unwrap();
    assert_eq!(rosters.len(), 5);
    for (place, roster) in rosters.iter().enumerate() {
        assert_eq!(roster.team, teams(5)[place]);
        assert_eq!(roster.players.len(), 11);
        assert_eq!(count(&roster.players, Position::Attacker), 4);
        assert_eq!(count(&roster.players, Position::Midfield), 3);
        assert_eq!(count(&roster.players, Position::Defender), 3);
        assert_eq!(count(&roster.players, Position::Goalkeeper), 1);
    }
}

#[test]
fn no_player_is_in_a_squad_twice() {
    let mut source = RandomSource::from_seed(5);
    let all = pool(40);
    for roster in make_teams(all.clone(), teams(8), &mut source).unwrap() {
        let mut ids: Vec<u32> = roster.players.iter().map(|p| p.id).collect();
        ids.sort();
        ids.dedup();
        assert_eq!(ids.len(), 11);
        assert!(roster.players.iter().all(|p| all.contains(p)));
    }
}

#[test]
fn a_player_can_be_in_several_squads() {
    // The pool has exactly one squad: every team gets all of it.
    let mut exact = Vec::new();
    for (role, wanted) in [
        (Position::Attacker, 4),
        (Position::Midfield, 3),
        (Position::Defender, 3),
        (Position::Goalkeeper, 1),
    ] {
        for _ in 0..wanted {
            exact.push(player(exact.len() as u32, role));
        }
    }
    let mut source = RandomSource::from_seed(6);
    let rosters = make_teams(exact.clone(), teams(3), &mut source).unwrap();
    for roster in rosters {
        let mut ids: Vec<u32> = roster.players.iter().map(|p| p.id).collect();
        ids.sort();
        assert_eq!(ids, (0..11).collect::<Vec<u32>>());
    }
}

#[test]
fn squads_are_determined_by_the_seed() {
    let mut first = RandomSource::from_seed(77);
    let mut second = RandomSource::from_seed(77);
    let a = make_teams(pool(100), teams(4), &mut first);
    let b = make_teams(pool(100), teams(4), &mut second);
    assert_eq!(a, b);
    assert_eq!(first.draw(0, 1000), second.draw(0, 1000));
    let mut third = RandomSource::from_seed(78);
    assert_ne!(a, make_teams(pool(100), teams(4), &mut third));
}

#[test]
fn squads_of_one_run_differ() {
    let mut source = RandomSource::from_seed(9);
    let rosters = make_teams(pool(200), teams(6), &mut source).unwrap();
    let first: Vec<u32> = rosters[0].players.iter().map(|p| p.id).collect();
    assert!(rosters.iter().any(|r| r.players.iter().map(|p| p.id).collect::<Vec<u32>>() != first));
}

#[test]
fn a_pool_without_enough_players_of_a_role_is_an_error() {
    let mut source = RandomSource::from_seed(1);
    let no_keeper: Vec<Player> =
        pool(60).into_iter().filter(|p| p.position != Position::Goalkeeper).collect();
    assert_eq!(
        make_teams(no_keeper, teams(2), &mut source),
        Err(SquadError { role: Position::Goalkeeper })
    );
    // Fifteen players: three of each role, one attacker too few.
    assert_eq!(
        make_teams(pool(15), teams(1), &mut source),
        Err(SquadError { role: Position::Attacker })
    );
    assert_eq!(
        make_teams(Vec::new(), teams(1), &mut source),
        Err(SquadError { role: Position::Attacker })
    );
}

#[test]
fn the_first_role_that_is_short_is_reported() {
    let mut few = vec![player(0, Position::Attacker); 4];
    few.extend(vec![player(0, Position::Midfield); 2]);
    few.extend(vec![player(0, Position::Defender); 1]);
    assert_eq!(find_shortage(&few), Some(Position::Midfield));
    few.push(player(0, Position::Midfield));
    assert_eq!(find_shortage(&few), Some(Position::Defender));
    few.extend(vec![player(0, Position::Defender); 2]);
    assert_eq!(find_shortage(&few), Some(Position::Goalkeeper));
    few.push(player(0, Position::Goalkeeper));
    assert_eq!(find_shortage(&few), None);
    assert_eq!(find_shortage(&pool(20)), None);
    assert_eq!(find_shortage(&pool(16)), None);
    assert_eq!(find_shortage(&pool(15)), Some(Position::Attacker));
}

#[test]
fn a_failed_call_draws_nothing() {
    let mut used = RandomSource::from_seed(12);
    let mut fresh = RandomSource::from_seed(12);
    assert!(make_teams(pool(10), teams(1), &mut used).is_err());
    assert_eq!(used.draw(0, 1000), fresh.draw(0, 1000));
}

#[test]
fn no_teams_no_squads() {
    let mut source = RandomSource::from_seed(1);
    assert_eq!(make_teams(pool(60), Vec::new(), &mut source), Ok(Vec::new()));
    assert_eq!(make_teams(Vec::new(), Vec::new(), &mut source), Ok(Vec::new()));
}

#[test]
fn players_of_a_role_are_counted() {
    let players = pool(23);
    assert_eq!(count_role(&players, Position::Attacker), 5);
    assert_eq!(count_role(&players, Position::Midfield), 5);
    assert_eq!(count_role(&players, Position::Defender), 5);
    assert_eq!(count_role(&players, Position::Goalkeeper), 4);
    assert_eq!(count_role(&players, Position::NotOnTheField), 4);
    assert_eq!(count_role(&Vec::new(), Position::Attacker), 0);
}

#[test]
fn picked_places_are_places_of_the_pool() {
    let players = pool(50);
    for seed in 0..20 {
        let mut source = RandomSource::from_seed(seed);
        let picks = pick_squad(&players, &mut source);
        assert_eq!(picks.len(), 11);
        assert!(picks.iter().all(|place| *place < 50));
        assert!(picks.iter().all(|place| players[*place].position != Position::NotOnTheField));
        let squad = call_up(&players, &picks);
        let ids: Vec<usize> = squad.iter().map(|p| p.id as usize).collect();
        assert_eq!(ids, picks);
    }
}

#[test]
fn picks_are_looked_up() {
    let picks = vec![3, 9, 4];
    assert!(is_picked(&picks, 9));
    assert!(is_picked(&picks, 3));
    assert!(!is_picked(&picks, 0));
    assert!(!is_picked(&Vec::new(), 0));
}

#[test]
fn players_are_called_up_in_the_order_of_the_picks() {
    let players = pool(10);
    let squad = call_up(&players, &vec![7, 0, 3]);
    assert_eq!(squad, vec![players[7].clone(), players[0].clone(), players[3].clone()]);
    assert!(call_up(&players, &Vec::new()).is_empty());
}

#[test]
fn a_tally_knows_what_the_squad_wants() {
    let empty = Tally { attackers: 0, midfielders: 0, defenders: 0, goalkeepers: 0 };
    assert!(empty.wants(Position::Attacker));
    assert!(empty.wants(Position::Goalkeeper));
    assert!(!empty.wants(Position::NotOnTheField));
    assert!(!empty.is_complete());
    let keeper = empty.with(Position::Goalkeeper);
    assert_eq!(keeper, Tally { goalkeepers: 1, ..empty });
    assert!(!keeper.wants(Position::Goalkeeper));
    let full = Tally { attackers: 4, midfielders: 3, defenders: 3, goalkeepers: 1 };
    assert!(full.is_complete());
    assert!(ROLES.iter().all(|role| !full.wants(*role)));
    let nearly = Tally { attackers: 3, ..full };
    assert!(!nearly.is_complete());
    assert_eq!(nearly.with(Position::Attacker), full);
}
