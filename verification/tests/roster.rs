use polycalculato_rs::roster::MAX_UNITS;
use polycalculato_rs::unit::{Unit, UnitType, Units};

const KINDS: [UnitType; 14] = [
    UnitType::Warrior,
    UnitType::Archer,
    UnitType::Rider,
    UnitType::Knight,
    UnitType::Giant,
    UnitType::Catapult,
    UnitType::Defender,
    UnitType::Swordsman,
    UnitType::Jelly,
    UnitType::Shaman,
    UnitType::Kiton,
    UnitType::Crab,
    UnitType::Shark,
    UnitType::Puffer,
];

fn kinds_of(units: &Units) -> Vec<UnitType> {
    (0..units.len()).map(|i| units.get(i).unit_type).collect()
}

#[test]
fn a_new_roster_is_empty() {
    assert_eq!(Units::new().len(), 0);
}

#[test]
fn pushed_units_stand_in_their_order() {
    let mut units = Units::new();
    assert!(units.push(Unit::new(UnitType::Archer)));
    assert!(units.push(Unit::new(UnitType::Giant)));
    assert_eq!(units.len(), 2);
    assert_eq!(units.get(0), Unit::new(UnitType::Archer));
    assert_eq!(units.get(1), Unit::new(UnitType::Giant));
}

#[test]
fn a_full_roster_takes_no_more() {
    let mut units = Units::new();
    for kind in KINDS.iter().take(MAX_UNITS) {
        assert!(units.push(Unit::new(*kind)));
    }
    assert_eq!(units.len(), MAX_UNITS);
    assert!(!units.push(Unit::new(UnitType::Puffer)));
    assert_eq!(units.len(), MAX_UNITS);
    assert_eq!(kinds_of(&units), KINDS[..MAX_UNITS].to_vec());
}

#[test]
fn a_roster_from_an_array_keeps_the_order() {
    let units = Units::from([
        Unit::new(UnitType::Rider),
        Unit::new(UnitType::Knight),
        Unit::new(UnitType::Warrior),
    ]);
    assert_eq!(kinds_of(&units), vec![UnitType::Rider, UnitType::Knight, UnitType::Warrior]);
    let none: [Unit; 0] = [];
    assert_eq!(Units::from(none).len(), 0);
}

#[test]
fn a_source_with_too_many_units_is_cut_off() {
    let source: Vec<Unit> = KINDS.iter().map(|kind| Unit::new(*kind)).collect();
    assert_eq!(source.len(), 14);
    let from_slice = Units::from_slice(&source);
    assert_eq!(kinds_of(&from_slice), KINDS[..12].to_vec());
    let from_vec = Units::from(source.clone());
    assert_eq!(kinds_of(&from_vec), KINDS[..12].to_vec());
    let array: [Unit; 14] = core::array::from_fn(|i| source[i]);
    assert_eq!(kinds_of(&Units::from(array)), KINDS[..12].to_vec());
    let exact = Units::from_slice(&source[..12]);
    assert_eq!(kinds_of(&exact), KINDS[..12].to_vec());
}

#[test]
fn set_replaces_one_unit() {
    let mut units = Units::from([Unit::new(UnitType::Rider), Unit::new(UnitType::Knight)]);
    let wounded = Unit::new(UnitType::Giant).with_current_hp(10);
    units.set(1, wounded);
    assert_eq!(units.len(), 2);
    assert_eq!(units.get(0), Unit::new(UnitType::Rider));
    assert_eq!(units.get(1), wounded);
}

#[test]
fn swap_exchanges_two_units() {
    let mut units = Units::from([
        Unit::new(UnitType::Rider),
        Unit::new(UnitType::Knight),
        Unit::new(UnitType::Warrior),
    ]);
    units.swap(0, 2);
    assert_eq!(kinds_of(&units), vec![UnitType::Warrior, UnitType::Knight, UnitType::Rider]);
    units.swap(1, 1);
    assert_eq!(kinds_of(&units), vec![UnitType::Warrior, UnitType::Knight, UnitType::Rider]);
    units.swap(2, 1);
    assert_eq!(kinds_of(&units), vec![UnitType::Warrior, UnitType::Rider, UnitType::Knight]);
}

#[test]
fn a_clone_is_a_roster_of_its_own() {
    let mut units = Units::from([Unit::new(UnitType::Rider), Unit::new(UnitType::Knight)]);
    let copy = units.clone();
    units.swap(0, 1);
    units.set(0, Unit::new(UnitType::Giant));
    assert!(units.push(Unit::new(UnitType::Archer)));
    assert_eq!(kinds_of(&copy), vec![UnitType::Rider, UnitType::Knight]);
    assert_eq!(kinds_of(&units), vec![UnitType::Giant, UnitType::Rider, UnitType::Archer]);
}

#[test]
fn a_roster_is_well_formed_when_all_its_units_are() {
    let mut units = Units::from([Unit::new(UnitType::Rider), Unit::new(UnitType::Knight)]);
    assert!(units.is_wf());
    assert!(Units::new().is_wf());
    let broken = Unit { current_hp: 500, ..Unit::new(UnitType::Giant) };
    units.set(1, broken);
    assert!(!units.is_wf());
    units.set(1, Unit::new(UnitType::Giant));
    assert!(units.is_wf());
}
