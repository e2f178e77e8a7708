use polycalculato_rs::combat::{bulk, eliminate_attacker, eliminate_defender};
use polycalculato_rs::unit::{BaseStats, StatusEffects, Unit, UnitType};

fn none() -> StatusEffects {
    StatusEffects::empty()
}

#[test]
fn a_defender_without_health_needs_no_attack() {
    let warrior = Unit::new(UnitType::Warrior);
    assert_eq!(bulk(&warrior, warrior.with_current_hp(0)), Some(0));
}

#[test]
fn one_attack_may_be_enough() {
    assert_eq!(bulk(&Unit::new(UnitType::Giant), Unit::new(UnitType::Warrior)), Some(1));
}

#[test]
fn an_attack_without_force_never_gets_there() {
    let warrior = Unit::new(UnitType::Warrior);
    assert_eq!(bulk(&Unit::new(UnitType::Egg), warrior), None);
    assert_eq!(bulk(&Unit::new(UnitType::MindBender), warrior), None);
    assert_eq!(bulk(&Unit::new(UnitType::IceArcher), Unit::new(UnitType::Giant)), None);
    let crab = Unit::new(UnitType::Crab);
    assert_eq!(bulk(&warrior.with_current_hp(10), crab), None);
}

#[test]
fn poison_helps_the_attacks_that_follow() {
    let kiton = Unit::new(UnitType::Kiton);
    let harmless = Unit::from_stats(UnitType::Kiton, BaseStats::plain(150, 10, 30, 1, true));
    let defender = Unit::new(UnitType::Defender);
    assert_eq!(bulk(&harmless.unwrap(), defender), Some(10));
    assert_eq!(bulk(&kiton, defender), Some(8));
    let poisoned = defender.with_status_effects(StatusEffects { poisoned: true, ..none() });
    assert_eq!(bulk(&kiton, poisoned), Some(8));
}

#[test]
fn poison_does_not_help_against_a_wall_or_a_fortification() {
    let kiton = Unit::new(UnitType::Kiton);
    let defender = Unit::new(UnitType::Defender);
    let fortified = defender.with_status_effects(StatusEffects { fortified: true, ..none() });
    assert_eq!(bulk(&kiton, fortified), Some(12));
    // Against the wall the first attack deals nothing but poison, and the
    // second leaves the defender as it was.
    let walled = defender.with_status_effects(StatusEffects { walled: true, ..none() });
    assert_eq!(bulk(&kiton, walled), None);
}

#[test]
fn the_highest_health_at_which_a_defender_falls() {
    let giant = Unit::new(UnitType::Giant);
    assert_eq!(eliminate_defender(&giant, giant), 170);
    let veteran = StatusEffects { veteran: true, ..none() };
    let warrior = Unit::new(UnitType::Warrior);
    assert_eq!(eliminate_defender(&warrior, warrior.with_status_effects(veteran)), 60);
    assert_eq!(eliminate_defender(&Unit::new(UnitType::Knight), Unit::new(UnitType::Cloak)), 50);
}

#[test]
fn a_defender_falls_to_no_force_only_without_health() {
    assert_eq!(eliminate_defender(&Unit::new(UnitType::Egg), Unit::new(UnitType::Warrior)), 0);
}

#[test]
fn the_health_of_the_defender_plays_no_part_in_where_it_falls() {
    let warrior = Unit::new(UnitType::Warrior);
    let rider = Unit::new(UnitType::Rider);
    assert_eq!(eliminate_defender(&warrior, rider), 70);
    assert_eq!(eliminate_defender(&warrior, rider.with_current_hp(10)), 70);
}

#[test]
fn the_least_health_with_which_an_attacker_fells() {
    let knight = Unit::new(UnitType::Knight);
    let archer = Unit::new(UnitType::Archer);
    assert_eq!(eliminate_attacker(knight, &archer), Some(50));
    assert_eq!(eliminate_attacker(knight, &archer.with_current_hp(80)), Some(30));
    assert_eq!(eliminate_attacker(knight.with_current_hp(10), &archer), Some(50));
}

#[test]
fn no_health_is_enough_against_too_strong_a_defender() {
    let warrior = Unit::new(UnitType::Warrior);
    let giant = Unit::new(UnitType::Giant);
    assert_eq!(eliminate_attacker(warrior, &giant), None);
    assert_eq!(eliminate_attacker(warrior, &giant.with_current_hp(100)), None);
    assert_eq!(eliminate_attacker(Unit::new(UnitType::Egg), &warrior), None);
}

#[test]
fn the_health_that_fells_may_be_more_than_the_attacker_can_have() {
    let warrior = Unit::new(UnitType::Warrior);
    let giant = Unit::new(UnitType::Giant);
    assert_eq!(eliminate_attacker(warrior, &giant.with_current_hp(80)), Some(200));
    assert_eq!(eliminate_attacker(warrior, &giant.with_current_hp(90)), Some(770));
    let walled = StatusEffects { walled: true, ..none() };
    assert_eq!(eliminate_attacker(giant, &warrior.with_status_effects(walled)), Some(470));
}

#[test]
fn a_defender_without_health_falls_to_any_attacker() {
    let dead = Unit::new(UnitType::Warrior).with_current_hp(0);
    assert_eq!(eliminate_attacker(Unit::new(UnitType::Egg), &dead), Some(0));
}
