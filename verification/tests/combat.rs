use polycalculato_rs::combat::{
    bulk, eliminate_attacker, eliminate_defender, multi_combat_score, optimized, single_combat,
};
use polycalculato_rs::unit::{StatusEffects, Unit, UnitType, Units};

/// Health in points, as the library counts it.
fn hp(points: f32) -> u32 {
    (points * 10.0) as u32
}

/// Damage as the library counts it, in points.
fn points(tenths: u32) -> f32 {
    tenths as f32 / 10.0
}

/// A score as the library counts it, in points.
fn score_points(tenths: i64) -> f32 {
    tenths as f32 / 10.0
}

fn fortified() -> StatusEffects {
    StatusEffects { fortified: true, ..StatusEffects::empty() }
}

#[test]
fn test_wa_wa() {
    let attacker = Unit::new(UnitType::Warrior);
    let defender = Unit::new(UnitType::Warrior);

    let (attacker_result, defender_result) = single_combat(&attacker, &defender);

    assert_eq!(points(attacker_result.damage), 5.0);
    assert_eq!(points(defender_result.damage), 5.0);
    assert_eq!(attacker_result.status_effects, StatusEffects::empty());
    assert_eq!(defender_result.status_effects, StatusEffects::empty());
}

#[test]
fn test_wa_wa_d() {
    let attacker = Unit::new(UnitType::Warrior);
    let defender = Unit::new(UnitType::Warrior).with_status_effects(fortified());

    let (attacker_result, defender_result) = single_combat(&attacker, &defender);

    assert_eq!(points(attacker_result.damage), 5.0);
    assert_eq!(points(defender_result.damage), 4.0);
    assert_eq!(attacker_result.status_effects, StatusEffects::empty());
    assert_eq!(defender_result.status_effects, StatusEffects::empty());
}

#[test]
fn test_wa_wa_d_6() {
    let attacker = Unit::new(UnitType::Warrior);
    let defender = Unit::new(UnitType::Warrior)
        .with_status_effects(fortified())
        .with_current_hp(hp(6.0));

    let (attacker_result, defender_result) = single_combat(&attacker, &defender);

    assert_eq!(points(attacker_result.damage), 4.0);
    assert_eq!(points(defender_result.damage), 5.0);
    assert_eq!(attacker_result.status_effects, StatusEffects::empty());
    assert_eq!(defender_result.status_effects, StatusEffects::empty());
}

#[test]
fn test_wa_je() {
    let attacker = Unit::new(UnitType::Warrior);
    let defender = Unit::new(UnitType::Jelly);

    let (attacker_result, defender_result) = single_combat(&attacker, &defender);

    assert_eq!(points(attacker_result.damage), 5.0);
    assert_eq!(points(defender_result.damage), 3.0);
    assert_eq!(attacker_result.status_effects, StatusEffects::empty());
    assert_eq!(defender_result.status_effects, StatusEffects::empty());
}

#[test]
fn test_je_wa() {
    let attacker = Unit::new(UnitType::Jelly);
    let defender = Unit::new(UnitType::Warrior);

    let (attacker_result, defender_result) = single_combat(&attacker, &defender);

    assert_eq!(points(attacker_result.damage), 5.0);
    assert_eq!(points(defender_result.damage), 5.0);
    assert_eq!(attacker_result.status_effects, StatusEffects::empty());
    assert_eq!(defender_result.status_effects, StatusEffects::empty());
}

#[test]
fn test_je_4_wa() {
    let attacker = Unit::new(UnitType::Jelly).with_current_hp(hp(4.0));
    let defender = Unit::new(UnitType::Warrior);

    let (attacker_result, defender_result) = single_combat(&attacker, &defender);
    assert_eq!(points(attacker_result.damage), 8.0);
    assert_eq!(points(defender_result.damage), 2.0);
    assert_eq!(attacker_result.status_effects, StatusEffects::empty());
    assert_eq!(defender_result.status_effects, StatusEffects::empty());
}

#[test]
fn test_wa_wa_vs_wa_d() {
    let attackers = Units::from([Unit::new(UnitType::Warrior), Unit::new(UnitType::Warrior)]);
    let defenders = Units::from([Unit::new(UnitType::Warrior).with_status_effects(fortified())]);
    let score = multi_combat_score(&attackers, defenders);

    assert_eq!(score_points(score), 0.0);
}

#[test]
fn test_wa_wa_wa_vs_wa_d() {
    let attackers = Units::from([
        Unit::new(UnitType::Warrior),
        Unit::new(UnitType::Warrior),
        Unit::new(UnitType::Warrior),
    ]);
    let defenders = Units::from([Unit::new(UnitType::Warrior).with_status_effects(fortified())]);
    let score = multi_combat_score(&attackers, defenders);

    assert_eq!(score_points(score), 1.0);
}

#[test]
fn test_wa_wa_wa_wa_wa_vs_je() {
    let attackers = Units::from([
        Unit::new(UnitType::Warrior),
        Unit::new(UnitType::Warrior),
        Unit::new(UnitType::Warrior),
        Unit::new(UnitType::Warrior),
        Unit::new(UnitType::Warrior),
    ]);
    let defenders = Units::from([Unit::new(UnitType::Jelly)]);

    let score = multi_combat_score(&attackers, defenders);
    assert_eq!(score_points(score), 2.0);
}

fn veteran() -> StatusEffects {
    StatusEffects { veteran: true, ..StatusEffects::empty() }
}

#[test]
fn test_ri_6_wa_ar_3_kn_ca_5_v_ca_vs_gi() {
    let attackers = Units::from([
        Unit::new(UnitType::Rider).with_current_hp(hp(6.0)),
        Unit::new(UnitType::Warrior),
        Unit::new(UnitType::Archer).with_current_hp(hp(3.0)),
        Unit::new(UnitType::Knight),
        Unit::new(UnitType::Catapult)
            .with_current_hp(hp(5.0))
            .with_status_effects(veteran()),
        Unit::new(UnitType::Catapult),
    ]);
    let defenders = Units::from([Unit::new(UnitType::Giant)]);

    let (score, _log) = optimized(attackers, defenders);
    assert_eq!(score_points(score), 19.0);
}

#[test]
fn test_b_ri_gi() {
    let attacker = Unit::new(UnitType::Rider);
    let defender = Unit::new(UnitType::Giant);

    let n_attacks = bulk(&attacker, defender);

    assert_eq!(n_attacks, Some(10));
}

#[test]
fn test_b_sh_5_gi() {
    let attacker = Unit::new(UnitType::Shaman).with_current_hp(hp(5.0));
    let defender = Unit::new(UnitType::Giant);

    let n_attacks = bulk(&attacker, defender);

    assert_eq!(n_attacks, Some(35));
}

#[test]
fn test_e_wa_ri_u() {
    let attacker = Unit::new(UnitType::Warrior);
    let defender = Unit::new(UnitType::Rider);

    let max_hp = eliminate_defender(&attacker, defender);

    assert_eq!(points(max_hp), 7.0);
}

#[test]
fn test_e_sh_1_gi_u() {
    let attacker = Unit::new(UnitType::Shaman).with_current_hp(hp(1.0));
    let defender = Unit::new(UnitType::Giant);

    let max_hp = eliminate_defender(&attacker, defender);

    assert_eq!(points(max_hp), 2.0);
}

#[test]
fn test_e_wa_u_ri_4() {
    let attacker = Unit::new(UnitType::Warrior);
    let defender = Unit::new(UnitType::Rider).with_current_hp(hp(4.0));

    let min_hp = eliminate_attacker(attacker, &defender);

    assert_eq!(min_hp.map(points), Some(2.0));
}

#[test]
fn test_e_gi_u_gi_15() {
    let attacker = Unit::new(UnitType::Giant);
    let defender = Unit::new(UnitType::Giant).with_current_hp(hp(15.0));

    let min_hp = eliminate_attacker(attacker, &defender);

    assert_eq!(min_hp.map(points), Some(22.0));
}
