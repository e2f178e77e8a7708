use polycalculato_rs::combat::{single_combat, UnitResult};
use polycalculato_rs::unit::{BaseStats, StatusEffects, Unit, UnitType};

fn none() -> StatusEffects {
    StatusEffects::empty()
}

fn result(damage: u32, status_effects: StatusEffects) -> UnitResult {
    UnitResult { damage, status_effects }
}

fn fight(attacker: Unit, defender: Unit) -> (UnitResult, UnitResult) {
    single_combat(&attacker, &defender)
}

#[test]
fn a_defender_of_shorter_range_does_not_retaliate() {
    let archer = Unit::new(UnitType::Archer);
    let warrior = Unit::new(UnitType::Warrior);
    assert_eq!(fight(archer, warrior), (result(0, none()), result(50, none())));
    assert_eq!(fight(warrior, archer), (result(20, none()), result(60, none())));
}

#[test]
fn a_surprising_attacker_is_not_struck_back() {
    let dagger = Unit::new(UnitType::Dagger);
    let warrior = Unit::new(UnitType::Warrior);
    assert_eq!(fight(dagger, warrior), (result(0, none()), result(50, none())));
}

#[test]
fn a_defender_that_does_not_retaliate_deals_nothing() {
    let warrior = Unit::new(UnitType::Warrior);
    let catapult = Unit::new(UnitType::Catapult);
    assert_eq!(fight(warrior, catapult), (result(0, none()), result(90, none())));
}

#[test]
fn a_defender_that_the_attack_eliminates_does_not_retaliate() {
    let giant = Unit::new(UnitType::Giant);
    let warrior = Unit::new(UnitType::Warrior).with_current_hp(10);
    assert_eq!(fight(giant, warrior), (result(0, none()), result(220, none())));
}

#[test]
fn the_attacker_inflicts_its_effects_and_receives_those_of_a_retaliating_defender() {
    let poisoned = StatusEffects { poisoned: true, ..none() };
    let kiton = Unit::new(UnitType::Kiton);
    let warrior = Unit::new(UnitType::Warrior);
    assert_eq!(fight(kiton, warrior), (result(60, none()), result(20, poisoned)));
    assert_eq!(fight(warrior, kiton), (result(80, poisoned), result(40, none())));
    let knight = Unit::new(UnitType::Knight);
    assert_eq!(fight(knight, kiton), (result(60, poisoned), result(80, none())));
}

#[test]
fn an_attacker_that_converts_or_freezes_is_not_struck_back() {
    let warrior = Unit::new(UnitType::Warrior);
    let converted = StatusEffects { converted: true, ..none() };
    let shaman = Unit::new(UnitType::Shaman);
    assert_eq!(fight(shaman, warrior), (result(0, none()), result(20, converted)));
    let frozen = StatusEffects { frozen: true, ..none() };
    let ice_archer = Unit::new(UnitType::IceArcher);
    assert_eq!(fight(ice_archer, warrior), (result(0, none()), result(0, frozen)));
}

#[test]
fn a_frozen_defender_does_not_retaliate() {
    let warrior = Unit::new(UnitType::Warrior);
    let frozen = warrior.with_status_effects(StatusEffects { frozen: true, ..none() });
    assert_eq!(fight(warrior, frozen), (result(0, none()), result(50, none())));
}

#[test]
fn an_attacker_that_takes_retaliation_takes_it_whatever_else_holds() {
    let takes = StatusEffects { takes_retaliation: true, ..none() };
    let warrior = Unit::new(UnitType::Warrior);
    let archer = Unit::new(UnitType::Archer).with_status_effects(takes);
    assert_eq!(fight(archer, warrior), (result(50, none()), result(50, none())));
    let dagger = Unit::new(UnitType::Dagger).with_status_effects(takes);
    assert_eq!(fight(dagger, warrior), (result(50, none()), result(50, none())));
    let frozen = warrior.with_status_effects(StatusEffects { frozen: true, ..none() });
    let forced = warrior.with_status_effects(takes);
    assert_eq!(fight(forced, frozen), (result(50, none()), result(50, none())));
}

#[test]
fn an_exploding_attacker_receives_its_maximum_health() {
    let exploding = StatusEffects { exploding: true, ..none() };
    let warrior = Unit::new(UnitType::Warrior).with_status_effects(exploding);
    let giant = Unit::new(UnitType::Giant);
    assert_eq!(fight(warrior, giant), (result(100, none()), result(15, none())));
    let knight = Unit::new(UnitType::Knight).with_status_effects(exploding);
    let weak = Unit::new(UnitType::Warrior).with_current_hp(20);
    assert_eq!(fight(knight, weak), (result(100, none()), result(70, none())));
    let veteran = StatusEffects { exploding: true, veteran: true, ..none() };
    let old_giant = Unit::new(UnitType::Giant).with_current_hp(10).with_status_effects(veteran);
    assert_eq!(fight(old_giant, giant).0.damage, 450);
    let archer = Unit::new(UnitType::Archer).with_status_effects(exploding);
    assert_eq!(fight(archer, Unit::new(UnitType::Catapult)).0.damage, 100);
}

#[test]
fn a_splashing_attack_is_halved_on_both_sides() {
    let splashing = StatusEffects { splashing: true, ..none() };
    let warrior = Unit::new(UnitType::Warrior);
    let splasher = warrior.with_status_effects(splashing);
    assert_eq!(fight(splasher, warrior), (result(25, none()), result(25, none())));
    let knight = Unit::new(UnitType::Knight).with_status_effects(splashing);
    let giant = Unit::new(UnitType::Giant);
    assert_eq!(fight(knight, giant), (result(50, none()), result(35, none())));
}

#[test]
fn two_units_with_tentacles_strike_each_other() {
    let jelly = Unit::new(UnitType::Jelly);
    assert_eq!(fight(jelly, jelly), (result(50, none()), result(50, none())));
}

#[test]
fn tentacles_do_not_reach_an_attacker_of_longer_range() {
    let archer = Unit::new(UnitType::Archer);
    let jelly = Unit::new(UnitType::Jelly);
    assert_eq!(fight(archer, jelly), (result(0, none()), result(50, none())));
}

#[test]
fn tentacles_weaken_the_attack_that_follows() {
    let jelly = Unit::new(UnitType::Jelly);
    let warrior = Unit::new(UnitType::Warrior);
    assert_eq!(fight(warrior, jelly), (result(50, none()), result(30, none())));
}

#[test]
fn an_attacker_whose_health_the_tentacles_take_deals_nothing() {
    let jelly = Unit::new(UnitType::Jelly);
    let warrior = Unit::new(UnitType::Warrior);
    assert_eq!(fight(warrior.with_current_hp(50), jelly), (result(60, none()), result(0, none())));
    assert_eq!(fight(warrior.with_current_hp(40), jelly), (result(60, none()), result(0, none())));
    assert_eq!(fight(warrior.with_current_hp(10), jelly), (result(80, none()), result(0, none())));
}

#[test]
fn walls_and_poison_change_the_defense() {
    let warrior = Unit::new(UnitType::Warrior);
    let walled = warrior.with_status_effects(StatusEffects { walled: true, ..none() });
    assert_eq!(fight(warrior, walled), (result(70, none()), result(20, none())));
    let poisoned = warrior.with_status_effects(StatusEffects { poisoned: true, ..none() });
    assert_eq!(fight(warrior, poisoned), (result(40, none()), result(50, none())));
}

#[test]
fn poison_takes_nothing_from_a_wall_or_a_fortification() {
    let warrior = Unit::new(UnitType::Warrior);
    let fortified = warrior.with_status_effects(
        StatusEffects { poisoned: true, fortified: true, ..none() },
    );
    assert_eq!(fight(warrior, fortified), (result(50, none()), result(40, none())));
    let walled = warrior.with_status_effects(
        StatusEffects { poisoned: true, walled: true, ..none() },
    );
    assert_eq!(fight(warrior, walled), (result(70, none()), result(20, none())));
}

#[test]
fn a_veteran_fights_with_health_out_of_a_higher_maximum() {
    let giant = Unit::new(UnitType::Giant);
    let veteran = giant.with_status_effects(StatusEffects { veteran: true, ..none() });
    assert_eq!(fight(veteran, giant), (result(90, none()), result(120, none())));
}

#[test]
fn evenly_matched_units_deal_the_same_either_way() {
    let warrior = Unit::new(UnitType::Warrior);
    let default = Unit::new(UnitType::DefaultWarrior);
    let there = fight(warrior, default);
    let back = fight(default, warrior);
    assert_eq!(there.0.damage, back.0.damage);
    assert_eq!(there.1.damage, back.1.damage);
    let pirate = Unit::new(UnitType::Pirate).with_current_hp(70);
    let dagger = Unit::new(UnitType::Dagger).with_current_hp(70);
    let there = fight(pirate, dagger);
    let back = fight(dagger, pirate);
    assert_eq!(there.0.damage, back.0.damage);
    assert_eq!(there.1.damage, back.1.damage);
    assert_eq!((there.0.damage, there.1.damage), (0, 50));
}

#[test]
fn an_engagement_changes_neither_unit() {
    let attacker = Unit::new(UnitType::Kiton);
    let defender = Unit::new(UnitType::Warrior);
    single_combat(&attacker, &defender);
    assert_eq!(attacker, Unit::new(UnitType::Kiton));
    assert_eq!(defender, Unit::new(UnitType::Warrior));
}

#[test]
fn a_longer_reach_is_an_advantage_between_equals() {
    let near = Unit::from_stats(UnitType::Warrior, BaseStats::plain(100, 20, 20, 1, true)).unwrap();
    let far = Unit::from_stats(UnitType::Archer, BaseStats::plain(100, 20, 20, 2, true)).unwrap();
    assert_eq!(fight(far, near), (result(0, none()), result(50, none())));
    assert_eq!(fight(near, far), (result(50, none()), result(50, none())));
}

#[test]
fn tentacles_are_an_advantage_between_equals() {
    let plain = BaseStats::plain(100, 20, 20, 1, true);
    let armed = BaseStats { tentacles: true, ..plain };
    let warrior = Unit::from_stats(UnitType::Warrior, plain).unwrap();
    let jelly = Unit::from_stats(UnitType::Jelly, armed).unwrap();
    assert_eq!(fight(jelly, warrior), (result(50, none()), result(50, none())));
    // The tentacles take five points first, so half the force is left.
    assert_eq!(fight(warrior, jelly), (result(110, none()), result(30, none())));
}
