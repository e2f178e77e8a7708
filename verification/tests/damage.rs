use polycalculato_rs::damage::{calculate_attacker_damage, calculate_damage, Ratio};

fn full(max_hp: u32) -> Ratio {
    Ratio { hp: max_hp, max_hp }
}

#[test]
fn equal_forces_share_the_damage() {
    // 2 / (2 + 2) * (4.5 * 2) is 4.5 on both sides, which is rounded up.
    assert_eq!(calculate_damage(20, 20, full(100), full(100), 10, false), (50, 50));
}

#[test]
fn halved_damage_is_half_of_the_rounded_damage() {
    assert_eq!(calculate_damage(20, 20, full(100), full(100), 10, true), (25, 25));
    assert_eq!(calculate_damage(35, 40, full(100), full(400), 10, true), (50, 35));
}

#[test]
fn knight_against_giant() {
    // 3.5 / 7.5 * 15.75 is 7.35, 4 / 7.5 * 18 is 9.6.
    assert_eq!(calculate_damage(35, 40, full(100), full(400), 10, false), (100, 70));
}

#[test]
fn the_defense_bonus_scales_the_defense_force() {
    assert_eq!(calculate_damage(50, 20, full(400), full(100), 40, false), (60, 90));
    assert_eq!(calculate_damage(50, 20, full(400), full(100), 7, false), (20, 180));
    assert_eq!(calculate_damage(30, 30, full(150), full(150), 15, false), (80, 50));
}

#[test]
fn an_exact_half_is_rounded_up() {
    // 0.4 / 2.4 * 9 is 1.5 and 2 / 2.4 * 9 is 7.5.
    let wounded = Ratio { hp: 40, max_hp: 200 };
    assert_eq!(calculate_damage(20, 20, wounded, full(100), 10, false), (80, 20));
}

#[test]
fn a_tenth_of_attack_is_not_lost() {
    // 0.1 / 2.1 * 0.45 is well below one half.
    assert_eq!(calculate_damage(1, 20, full(100), full(100), 10, false), (90, 0));
}

#[test]
fn no_force_on_either_side_means_no_damage() {
    assert_eq!(calculate_damage(0, 0, full(100), full(100), 10, false), (0, 0));
    assert_eq!(calculate_damage(0, 0, full(100), full(100), 10, true), (0, 0));
    let dead = Ratio { hp: 0, max_hp: 100 };
    assert_eq!(calculate_damage(20, 20, dead, dead, 10, false), (0, 0));
    assert_eq!(calculate_damage(20, 0, dead, full(100), 10, false), (0, 0));
    assert_eq!(calculate_attacker_damage(0, 0, full(100), full(100), 10), 0);
}

#[test]
fn an_attack_without_force_deals_nothing_and_takes_all() {
    assert_eq!(calculate_damage(0, 20, full(100), full(100), 10, false), (90, 0));
    assert_eq!(calculate_attacker_damage(0, 20, full(100), full(100), 10), 0);
}

#[test]
fn the_attacker_damage_is_the_second_part_of_the_damage() {
    let attacker = Ratio { hp: 60, max_hp: 100 };
    let defender = Ratio { hp: 250, max_hp: 400 };
    let both = calculate_damage(20, 40, attacker, defender, 15, false);
    assert_eq!(calculate_attacker_damage(20, 40, attacker, defender, 15), both.1);
}

#[test]
fn the_largest_statistics_do_not_overflow() {
    let huge = Ratio { hp: u32::MAX, max_hp: u32::MAX };
    assert_eq!(calculate_damage(u16::MAX, 0, huge, huge, 40, false), (0, 294_910));
    assert_eq!(calculate_damage(u16::MAX, u16::MAX, huge, huge, 10, false), (147_450, 147_450));
    let (to_attacker, to_defender) = calculate_damage(u16::MAX, u16::MAX, huge, huge, 40, false);
    assert!(to_attacker <= 294_910 && to_defender <= 294_910);
}
