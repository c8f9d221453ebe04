use match_sim::pitch::{
    blended, contest, phase_of, play_on, rebound_from, shot_goes_in, variance_ceiling_of, Phase,
};
use match_sim::sectors::SectorStrengths;

fn side(attack: u128, midfield: u128, defense: u128, goalkeeping: u128) -> SectorStrengths {
    SectorStrengths { attack, midfield, defense, goalkeeping }
}

#[test]
fn phases_have_strict_bounds() {
    assert_eq!(phase_of(76), Phase::HomeAttacking);
    assert_eq!(phase_of(99), Phase::HomeAttacking);
    assert_eq!(phase_of(26), Phase::MidfieldContest);
    assert_eq!(phase_of(45), Phase::MidfieldContest);
    assert_eq!(phase_of(74), Phase::MidfieldContest);
    assert_eq!(phase_of(1), Phase::AwayAttacking);
    assert_eq!(phase_of(24), Phase::AwayAttacking);
    assert_eq!(phase_of(101), Phase::GoalResolution);
    assert_eq!(phase_of(5000), Phase::GoalResolution);
    assert_eq!(phase_of(-1), Phase::GoalResolution);
    assert_eq!(phase_of(-700), Phase::GoalResolution);
}

#[test]
fn the_four_boundaries_are_in_no_phase() {
    for field in [0, 25, 75, 100] {
        assert_eq!(phase_of(field), Phase::Boundary);
    }
}

#[test]
fn every_position_has_one_phase() {
    for field in -300..400 {
        let phase = phase_of(field);
        let boundary = field == 0 || field == 25 || field == 75 || field == 100;
        assert_eq!(phase == Phase::Boundary, boundary);
    }
}

#[test]
fn a_contest_from_46_with_50_against_40_ends_at_56() {
    // The difference is ten, the away side loses: ten towards the away goal.
    assert_eq!(contest(46, 50, 40), 56);
    assert_eq!(contest(46, 40, 50), 36);
    assert_eq!(contest(46, 50, 50), 46);
    assert_eq!(contest(20, 0, 80), -60);
    assert_eq!(contest(80, 300, 0), 380);
}

#[test]
fn midfield_contest_from_46_with_50_against_40_ends_at_56() {
    let home = side(0, 50, 0, 0);
    let away = side(0, 40, 0, 0);
    assert_eq!(play_on(46, &home, &away, 1000, 1000), 56);
}

#[test]
fn midfield_contest_is_decided_by_the_midfields_alone() {
    let home = side(999, 40, 999, 999);
    let away = side(1, 50, 1, 1);
    assert_eq!(play_on(50, &home, &away, 1000, 1000), 40);
    assert_eq!(play_on(50, &home, &home, 1000, 1000), 50);
}

#[test]
fn home_attack_meets_away_defense() {
    // 50 attack + a third of no midfield against 40 defense: ten towards the away goal.
    assert_eq!(play_on(80, &side(50, 0, 0, 0), &side(0, 0, 40, 0), 1000, 1000), 90);
    // The defense wins by 25: back into midfield.
    assert_eq!(play_on(80, &side(50, 0, 0, 0), &side(0, 0, 75, 0), 1000, 1000), 55);
    // Midfield counts for 0.33: 50 + 33 against 40 + 17 (16.5 rounds up).
    assert_eq!(play_on(80, &side(50, 100, 0, 0), &side(0, 50, 40, 0), 1000, 1000), 80 + 83 - 57);
}

#[test]
fn away_attack_meets_home_defense() {
    assert_eq!(play_on(20, &side(0, 0, 40, 0), &side(50, 0, 0, 0), 1000, 1000), 10);
    assert_eq!(play_on(20, &side(0, 0, 60, 0), &side(50, 0, 0, 0), 1000, 1000), 30);
    assert_eq!(play_on(20, &side(0, 0, 40, 0), &side(80, 0, 0, 0), 1000, 1000), -20);
}

#[test]
fn play_variance_scales_the_effort() {
    // 100 * 0.92 = 92 against 100 * 1.028 = 103 (102.8 rounds up).
    assert_eq!(play_on(50, &side(0, 100, 0, 0), &side(0, 100, 0, 0), 920, 1028), 50 + 92 - 103);
    assert_eq!(play_on(50, &side(0, 100, 0, 0), &side(0, 100, 0, 0), 1028, 920), 50 + 103 - 92);
}

#[test]
fn a_boundary_position_stays() {
    let strong = side(500, 500, 500, 500);
    let weak = side(1, 1, 1, 1);
    for field in [0, 25, 75, 100] {
        assert_eq!(play_on(field, &strong, &weak, 1000, 920), field);
        assert_eq!(play_on(field, &weak, &strong, 920, 1500), field);
    }
}

#[test]
fn play_does_not_move_a_shot_position() {
    let strong = side(500, 500, 500, 500);
    let weak = side(1, 1, 1, 1);
    assert_eq!(play_on(130, &strong, &weak, 1000, 1000), 130);
    assert_eq!(play_on(-4, &strong, &weak, 1000, 1000), -4);
}

#[test]
fn blending_adds_a_third_of_the_midfield() {
    assert_eq!(blended(50, 100), 83);
    assert_eq!(blended(40, 50), 57);
    assert_eq!(blended(0, 0), 0);
    assert_eq!(blended(10, 1), 10);
    assert_eq!(blended(10, 2), 11);
}

#[test]
fn a_shot_goes_in_when_the_pick_is_above_the_keeper() {
    assert!(shot_goes_in(50, 40, 1000));
    assert!(!shot_goes_in(40, 40, 1000));
    assert!(!shot_goes_in(39, 40, 1000));
    // The goal variance scales the keeper: 100 * 0.9 = 90.
    assert!(shot_goes_in(91, 100, 900));
    assert!(!shot_goes_in(90, 100, 900));
    // Without a keeper every pick but 0 goes in.
    assert!(shot_goes_in(1, 0, 1099));
    assert!(!shot_goes_in(0, 0, 1099));
}

#[test]
fn a_repelled_shot_is_thrown_back_by_25() {
    assert_eq!(rebound_from(101), 76);
    assert_eq!(rebound_from(130), 105);
    assert_eq!(rebound_from(-1), 24);
    assert_eq!(rebound_from(-40), -15);
}

#[test]
fn the_variance_ceiling_grows_with_the_standing() {
    assert_eq!(variance_ceiling_of(0, 1599), 1000);
    assert_eq!(variance_ceiling_of(20, 1400), 1028);
    assert_eq!(variance_ceiling_of(18, 1200), 1021);
    assert_eq!(variance_ceiling_of(u32::MAX, 1599), 1000 + 6867652704);
}
