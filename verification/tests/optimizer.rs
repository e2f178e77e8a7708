use polycalculato_rs::combat::{
    multi_combat_log, multi_combat_score, multi_combat_score_with_bonus, optimized,
    optimized_with_bonus,
};
use polycalculato_rs::optimizer::best_orders;
use polycalculato_rs::perms::Perms;
use polycalculato_rs::unit::{BaseStats, StatusEffects, Unit, UnitType, Units};

fn kinds_of(units: &Units) -> Vec<UnitType> {
    (0..units.len()).map(|i| units.get(i).unit_type).collect()
}

fn squad() -> (Units, Units) {
    let attackers = Units::from([
        Unit::new(UnitType::Rider).with_current_hp(60),
        Unit::new(UnitType::Warrior),
        Unit::new(UnitType::Archer).with_current_hp(30),
        Unit::new(UnitType::Knight),
    ]);
    let defenders = Units::from([Unit::new(UnitType::Swordsman), Unit::new(UnitType::Archer)]);
    (attackers, defenders)
}

fn siege() -> (Units, Units) {
    let veteran = StatusEffects { veteran: true, ..StatusEffects::empty() };
    let attackers = Units::from([
        Unit::new(UnitType::Catapult).with_current_hp(50).with_status_effects(veteran),
        Unit::new(UnitType::Catapult),
        Unit::new(UnitType::Rider).with_current_hp(60),
        Unit::new(UnitType::Knight),
        Unit::new(UnitType::Warrior),
        Unit::new(UnitType::Archer).with_current_hp(30),
    ]);
    let defenders = Units::from([Unit::new(UnitType::Giant)]);
    (attackers, defenders)
}

/// The best score and its rosters, found by trying each ordering in turn.
fn search(attackers: &Units, defenders: &Units, kill_bonus: u32) -> (i64, Units, Units) {
    let mut attackers = attackers.clone();
    let mut defenders = defenders.clone();
    let mut best: Option<(i64, Units, Units)> = None;
    let mut outer = Perms::new(attackers.len());
    while let Some((a, b)) = outer.next() {
        if a != b {
            attackers.swap(a, b);
        }
        let mut inner = Perms::new(defenders.len());
        while let Some((c, d)) = inner.next() {
            if c != d {
                defenders.swap(c, d);
            }
            let score = multi_combat_score_with_bonus(&attackers, defenders.clone(), kill_bonus);
            if best.as_ref().map_or(true, |found| score > found.0) {
                best = Some((score, attackers.clone(), defenders.clone()));
            }
        }
    }
    best.unwrap()
}

#[test]
fn the_best_order_is_found() {
    let (attackers, defenders) = squad();
    assert_eq!(multi_combat_score(&attackers, defenders.clone()), 20);
    let (score, log) = optimized_with_bonus(attackers.clone(), defenders.clone(), 0);
    assert_eq!(score, 130);
    assert_eq!(log.0.len(), 4);
    let (score, _) = optimized_with_bonus(attackers, defenders, 1000);
    assert_eq!(score, 1130);
}

#[test]
fn the_best_order_of_three_against_three() {
    let attackers = Units::from([
        Unit::new(UnitType::Warrior),
        Unit::new(UnitType::Knight),
        Unit::new(UnitType::Archer),
    ]);
    let defenders = Units::from([
        Unit::new(UnitType::Defender),
        Unit::new(UnitType::Catapult),
        Unit::new(UnitType::Rider),
    ]);
    assert_eq!(multi_combat_score(&attackers, defenders.clone()), 20);
    assert_eq!(optimized_with_bonus(attackers.clone(), defenders.clone(), 0).0, 200);
    assert_eq!(optimized_with_bonus(attackers.clone(), defenders.clone(), 1000).0, 2200);
    assert_eq!(optimized(attackers, defenders).0, 200);
}

#[test]
fn the_score_is_no_lower_than_that_of_the_given_order() {
    for (attackers, defenders) in [squad(), siege()] {
        for kill_bonus in [0, 1, 1000] {
            let given = multi_combat_score_with_bonus(&attackers, defenders.clone(), kill_bonus);
            let (best, _) = optimized_with_bonus(attackers.clone(), defenders.clone(), kill_bonus);
            assert!(best >= given);
        }
    }
}

#[test]
fn the_kill_bonus_decides_between_wounding_and_eliminating() {
    let (attackers, defenders) = siege();
    // In the given order the giant is left with one point of health.
    assert_eq!(multi_combat_score(&attackers, defenders.clone()), 190);
    assert_eq!(optimized_with_bonus(attackers.clone(), defenders.clone(), 0).0, 190);
    assert_eq!(optimized_with_bonus(attackers.clone(), defenders.clone(), 1000).0, 1170);
    let (score, _) = optimized(attackers, defenders);
    assert_eq!(score, 190);
}

#[test]
fn without_a_bonus_the_search_is_that_of_the_plain_score() {
    for (attackers, defenders) in [squad(), siege()] {
        let plain = optimized(attackers.clone(), defenders.clone());
        let same = optimized_with_bonus(attackers, defenders, 0);
        assert_eq!(plain.0, same.0);
        assert_eq!(plain.1 .0, same.1 .0);
    }
}

#[test]
fn the_given_order_stays_where_none_is_better() {
    let attackers = Units::from([Unit::new(UnitType::Warrior)]);
    let defenders = Units::from([
        Unit::new(UnitType::Catapult),
        Unit::new(UnitType::Warrior).with_current_hp(10),
    ]);
    assert_eq!(multi_combat_score(&attackers, defenders.clone()), 90);
    let (score, log) = optimized(attackers.clone(), defenders.clone());
    assert_eq!(score, 90);
    assert_eq!(log.0, multi_combat_log(&attackers, defenders).0);
    assert_eq!(log.0.len(), 1);
    assert_eq!(log.0[0].defender, Unit::new(UnitType::Catapult));

    let same = Units::from([
        Unit::new(UnitType::Rider),
        Unit::new(UnitType::Rider),
        Unit::new(UnitType::Rider),
    ]);
    let target = Units::from([Unit::new(UnitType::Giant)]);
    let (score, log) = optimized(same.clone(), target.clone());
    assert_eq!(score, multi_combat_score(&same, target.clone()));
    assert_eq!(log.0, multi_combat_log(&same, target).0);
}

#[test]
fn the_best_score_does_not_depend_on_the_order_given() {
    let strong = BaseStats::plain(100, 224, 20, 1, true);
    let soft = BaseStats::plain(2000, 20, 0, 1, true);
    let attackers = Units::from([Unit::from_stats(UnitType::Giant, strong).unwrap()]);
    let big = Unit::from_stats(UnitType::Crab, soft).unwrap();
    let small = Unit::new(UnitType::Warrior).with_current_hp(10);
    let one_way = Units::from([big, small]);
    let other_way = Units::from([small, big]);
    assert_eq!(multi_combat_score(&attackers, one_way.clone()), 1010);
    assert_eq!(multi_combat_score(&attackers, other_way.clone()), 10);
    assert_eq!(optimized(attackers.clone(), one_way).0, 1010);
    assert_eq!(optimized(attackers, other_way).0, 1010);

    let (attackers, defenders) = siege();
    let mut turned = attackers.clone();
    turned.swap(0, 5);
    turned.swap(1, 3);
    assert_eq!(optimized(turned, defenders.clone()).0, optimized(attackers, defenders).0);
}

#[test]
fn the_log_is_that_of_the_best_order() {
    let (attackers, defenders) = squad();
    let (score, best_attackers, best_defenders) =
        best_orders(attackers.clone(), defenders.clone(), 0);
    assert_eq!(score, 130);
    assert_eq!(multi_combat_score(&best_attackers, best_defenders.clone()), 130);
    let (_, log) = optimized_with_bonus(attackers, defenders, 0);
    assert_eq!(log.0, multi_combat_log(&best_attackers, best_defenders).0);
}

#[test]
fn of_equal_scores_the_first_wins() {
    for (attackers, defenders) in [squad(), siege()] {
        for kill_bonus in [0, 1000] {
            let expected = search(&attackers, &defenders, kill_bonus);
            let found = best_orders(attackers.clone(), defenders.clone(), kill_bonus);
            assert_eq!(found.0, expected.0);
            assert_eq!(kinds_of(&found.1), kinds_of(&expected.1));
            assert_eq!(kinds_of(&found.2), kinds_of(&expected.2));
        }
    }
    let same = Units::from([
        Unit::new(UnitType::Warrior),
        Unit::new(UnitType::Warrior),
        Unit::new(UnitType::Rider),
    ]);
    let target = Units::from([Unit::new(UnitType::Giant), Unit::new(UnitType::Giant)]);
    let (score, best_attackers, best_defenders) = best_orders(same.clone(), target.clone(), 0);
    let expected = search(&same, &target, 0);
    assert_eq!(score, expected.0);
    assert_eq!(kinds_of(&best_attackers), kinds_of(&expected.1));
    assert_eq!(kinds_of(&best_defenders), kinds_of(&expected.2));
}

#[test]
fn the_best_rosters_hold_the_same_units() {
    let (attackers, defenders) = squad();
    let (_, best_attackers, best_defenders) = best_orders(attackers.clone(), defenders.clone(), 1000);
    let mut given: Vec<String> = kinds_of(&attackers).iter().map(|k| format!("{:?}", k)).collect();
    let mut found: Vec<String> =
        kinds_of(&best_attackers).iter().map(|k| format!("{:?}", k)).collect();
    given.sort();
    found.sort();
    assert_eq!(given, found);
    assert_eq!(best_defenders.len(), defenders.len());
}

#[test]
fn empty_rosters_have_one_order_with_no_score() {
    let some = Units::from([Unit::new(UnitType::Warrior), Unit::new(UnitType::Archer)]);
    let (score, log) = optimized(Units::new(), Units::new());
    assert_eq!(score, 0);
    assert!(log.0.is_empty());
    let (score, log) = optimized(some.clone(), Units::new());
    assert_eq!(score, 0);
    assert!(log.0.is_empty());
    let (score, log) = optimized_with_bonus(Units::new(), some, 1000);
    assert_eq!(score, 0);
    assert!(log.0.is_empty());
}

#[test]
fn a_single_pair_has_a_single_order() {
    let attackers = Units::from([Unit::new(UnitType::Warrior)]);
    let defenders = Units::from([Unit::new(UnitType::Warrior)]);
    let (score, log) = optimized(attackers, defenders);
    assert_eq!(score, 0);
    assert_eq!(log.0.len(), 1);
    assert_eq!((log.0[0].damage_to_attacker, log.0[0].damage_to_defender), (50, 50));
}
