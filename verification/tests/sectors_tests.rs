use match_sim::entities::{Player, Position};
use match_sim::permille::{scale_floor, scale_round};
use match_sim::random::RandomSource;
use match_sim::sectors::{aggregate, aggregate_with, noised_quality, SectorStrengths};

fn player(id: u32, position: Position, quality: u8) -> Player {
    Player { id, position, quality, ..Player::default() }
}

const NOTHING: SectorStrengths =
    SectorStrengths { attack: 0, midfield: 0, defense: 0, goalkeeping: 0 };

#[test]
fn scaling_rounds_to_nearest() {
    assert_eq!(scale_round(80, 1150), 92);
    assert_eq!(scale_round(1, 499), 0);
    assert_eq!(scale_round(1, 500), 1);
    assert_eq!(scale_round(3, 1500), 5);
    assert_eq!(scale_round(0, 1250), 0);
    assert_eq!(scale_round(77, 1000), 77);
}

#[test]
fn scaling_down_floors() {
    assert_eq!(scale_floor(20, 1400), 28);
    assert_eq!(scale_floor(1, 999), 0);
    assert_eq!(scale_floor(7, 1599), 11);
}

#[test]
fn noised_quality_is_the_rounded_product() {
    assert_eq!(noised_quality(80, 1150), 92);
    assert_eq!(noised_quality(99, 1249), 124);
    assert_eq!(noised_quality(50, 1050), 53);
    assert_eq!(noised_quality(0, 1249), 0);
    assert_eq!(noised_quality(255, u64::MAX), 4703919738795935662);
}

#[test]
fn one_attacker_of_quality_80_under_noise_1_15_is_worth_92() {
    let players = vec![player(1, Position::Attacker, 80)];
    let strengths = aggregate_with(&players, &vec![1150]);
    assert_eq!(strengths, SectorStrengths { attack: 92, ..NOTHING });
}

#[test]
fn a_pinned_noise_source_gives_92() {
    let players = vec![player(1, Position::Attacker, 80)];
    for seed in 0..20 {
        let mut source = RandomSource::from_seed(seed);
        let strengths = aggregate(&players, &mut source, 1150, 1151);
        assert_eq!(strengths, SectorStrengths { attack: 92, ..NOTHING });
    }
}

#[test]
fn an_empty_roster_is_worth_nothing() {
    assert_eq!(aggregate_with(&Vec::new(), &Vec::new()), NOTHING);
    let mut source = RandomSource::from_seed(1);
    assert_eq!(aggregate(&Vec::new(), &mut source, 1050, 1250), NOTHING);
}

#[test]
fn an_absent_role_is_worth_nothing() {
    let players = vec![player(1, Position::Attacker, 80), player(2, Position::Defender, 70)];
    let strengths = aggregate_with(&players, &vec![1100, 1200]);
    assert_eq!(strengths.midfield, 0);
    assert_eq!(strengths.goalkeeping, 0);
    assert_eq!(strengths.attack, 88);
    assert_eq!(strengths.defense, 84);
}

#[test]
fn sectors_add_up_by_role() {
    let players = vec![
        player(1, Position::Attacker, 80),
        player(2, Position::Midfield, 60),
        player(3, Position::Attacker, 70),
        player(4, Position::Defender, 50),
        player(5, Position::Midfield, 65),
        player(6, Position::Goalkeeper, 90),
    ];
    let strengths = aggregate_with(&players, &vec![1000, 1100, 1200, 1050, 1249, 1111]);
    assert_eq!(
        strengths,
        SectorStrengths { attack: 80 + 84, midfield: 66 + 81, defense: 53, goalkeeping: 100 }
    );
}

#[test]
fn the_last_goalkeeper_stands_for_goalkeeping() {
    let players = vec![
        player(1, Position::Goalkeeper, 90),
        player(2, Position::Attacker, 10),
        player(3, Position::Goalkeeper, 40),
    ];
    let strengths = aggregate_with(&players, &vec![1000, 1000, 1000]);
    assert_eq!(strengths.goalkeeping, 40);
}

#[test]
fn a_player_off_the_field_counts_for_nothing() {
    let players = vec![player(1, Position::NotOnTheField, 99)];
    assert_eq!(aggregate_with(&players, &vec![1249]), NOTHING);
}

#[test]
fn drawn_noise_stays_in_its_range() {
    let players = vec![player(1, Position::Attacker, 80), player(2, Position::Goalkeeper, 60)];
    for seed in 0..200 {
        let mut source = RandomSource::from_seed(seed);
        let strengths = aggregate(&players, &mut source, 1050, 1250);
        assert!(84 <= strengths.attack && strengths.attack <= 100);
        assert!(63 <= strengths.goalkeeping && strengths.goalkeeping <= 75);
        assert_eq!((strengths.midfield, strengths.defense), (0, 0));
    }
}

#[test]
fn strengths_are_drawn_anew_each_time() {
    let players = vec![player(1, Position::Attacker, 80)];
    let mut source = RandomSource::from_seed(11);
    let mut seen = Vec::new();
    for _ in 0..200 {
        let attack = aggregate(&players, &mut source, 1050, 1250).attack;
        if !seen.contains(&attack) {
            seen.push(attack);
        }
    }
    assert!(seen.len() > 5);
}
