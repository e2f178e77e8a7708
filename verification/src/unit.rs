//! Unit kinds, their base statistics, and units in combat.
//!
//! Every quantity is a fixed-point number counted in tenths: an attack of `35`
//! is three and a half points, a health of `100` is ten points.
use vstd::prelude::*;
pub use crate::effects::StatusEffects;
pub use crate::roster::Units;

verus! {

/// One whole point, in tenths.
pub const POINT: u32 = 10;

/// What a unit's maximum health gains when the unit first becomes a veteran.
pub const VETERAN_BONUS: u32 = 50;

/// The largest maximum health that base statistics may give.
pub const HEALTH_LIMIT: u32 = 1_000_000_000;

/// The largest defense multiplier, that of a walled unit.
pub const WALLED_BONUS: u16 = 40;

/// The kinds of unit. Kinds that end in `Bomber`, `Raft`, `Rammer` and `Scout`
/// are the kind named before that word, carried on a vessel of that sort.
#[derive(Clone, Copy, Debug, PartialEq, Eq, Hash, Structural)]
pub enum UnitType {
    Archer,
    ArcherBomber,
    ArcherRaft,
    ArcherRammer,
    ArcherScout,
    BabyDragon,
    BattleSled,
    BattleSledBomber,
    BattleSledRaft,
    BattleSledRammer,
    BattleSledScout,
    Catapult,
    CatapultBomber,
    CatapultRaft,
    CatapultRammer,
    CatapultScout,
    Centipede,
    CentipedeBomber,
    CentipedeRaft,
    CentipedeRammer,
    CentipedeScout,
    Cloak,
    Crab,
    Dagger,
    DefaultWarrior,
    DefaultWarriorBomber,
    DefaultWarriorRaft,
    DefaultWarriorRammer,
    DefaultWarriorScout,
    Defender,
    DefenderBomber,
    DefenderRaft,
    DefenderRammer,
    DefenderScout,
    Doomux,
    DoomuxBomber,
    DoomuxRaft,
    DoomuxRammer,
    DoomuxScout,
    Egg,
    EggBomber,
    EggRaft,
    EggRammer,
    EggScout,
    Exida,
    ExidaBomber,
    ExidaRaft,
    ExidaRammer,
    ExidaScout,
    FireDragon,
    Gaami,
    GaamiBomber,
    GaamiRaft,
    GaamiRammer,
    GaamiScout,
    Giant,
    Hexapod,
    HexapodBomber,
    HexapodRaft,
    HexapodRammer,
    HexapodScout,
    IceArcher,
    IceArcherBomber,
    IceArcherRaft,
    IceArcherRammer,
    IceArcherScout,
    IceFortress,
    IceFortressBomber,
    IceFortressRaft,
    IceFortressRammer,
    IceFortressScout,
    Jelly,
    Juggernaut,
    Kiton,
    KitonBomber,
    KitonRaft,
    KitonRammer,
    KitonScout,
    Knight,
    KnightBomber,
    KnightRaft,
    KnightRammer,
    KnightScout,
    MindBender,
    MindBenderBomber,
    MindBenderRaft,
    MindBenderRammer,
    MindBenderScout,
    Mooni,
    MooniBomber,
    MooniRaft,
    MooniRammer,
    MooniScout,
    Phychi,
    Pirate,
    Polytaur,
    PolytaurBomber,
    PolytaurRaft,
    PolytaurRammer,
    PolytaurScout,
    Puffer,
    Raychi,
    Rider,
    RiderBomber,
    RiderRaft,
    RiderRammer,
    RiderScout,
    Segment,
    Shaman,
    ShamanBomber,
    ShamanRaft,
    ShamanRammer,
    ShamanScout,
    Shark,
    Swordsman,
    SwordsmanBomber,
    SwordsmanRaft,
    SwordsmanRammer,
    SwordsmanScout,
    Tridention,
    Warrior,
    WarriorBomber,
    WarriorRaft,
    WarriorRammer,
    WarriorScout,
}

/// What every unit of one kind starts with.
#[derive(Clone, Copy, Debug, PartialEq, Eq, Structural)]
pub struct BaseStats {
    pub max_hp: u32,
    pub attack: u16,
    pub defense: u16,
    pub range: u8,
    /// Whether the unit strikes back when it is attacked.
    pub retaliates: bool,
    /// Whether the unit's attacks are never answered.
    pub surprise: bool,
    /// Whether the unit hurts attackers that come within its range.
    pub tentacles: bool,
    /// The effects that the unit inflicts on whatever it damages.
    pub trait_effects: StatusEffects,
}

impl BaseStats {
    /// Statistics are usable when the maximum health is positive and within the limit.
    pub open spec fn wf(self) -> bool {
        0 < self.max_hp <= HEALTH_LIMIT
    }

    pub open spec fn spec_plain(
        max_hp: u32,
        attack: u16,
        defense: u16,
        range: u8,
        retaliates: bool,
    ) -> BaseStats {
        BaseStats {
            max_hp,
            attack,
            defense,
            range,
            retaliates,
            surprise: false,
            tentacles: false,
            trait_effects: StatusEffects::empty(),
        }
    }

    /// Statistics of a unit without surprise, tentacles or inflicted effects.
    #[verifier::when_used_as_spec(spec_plain)]
    pub fn plain(max_hp: u32, attack: u16, defense: u16, range: u8, retaliates: bool) -> (r:
        BaseStats)
        ensures
            r == Self::spec_plain(max_hp, attack, defense, range, retaliates),
    {
        BaseStats {
            max_hp,
            attack,
            defense,
            range,
            retaliates,
            surprise: false,
            tentacles: false,
            trait_effects: StatusEffects::empty(),
        }
    }

    pub open spec fn spec_bomber(max_hp: u32) -> BaseStats {
        Self::spec_plain(max_hp, 30, 20, 3, false)
    }

    /// A unit carried on a bomber keeps its health and has the bomber's other statistics.
    #[verifier::when_used_as_spec(spec_bomber)]
    pub fn bomber(max_hp: u32) -> (r: BaseStats)
        ensures
            r == Self::spec_bomber(max_hp),
    {
        Self::plain(max_hp, 30, 20, 3, false)
    }

    pub open spec fn spec_raft(max_hp: u32) -> BaseStats {
        Self::spec_plain(max_hp, 0, 20, 0, false)
    }

    /// A unit carried on a raft keeps its health and has the raft's other statistics.
    #[verifier::when_used_as_spec(spec_raft)]
    pub fn raft(max_hp: u32) -> (r: BaseStats)
        ensures
            r == Self::spec_raft(max_hp),
    {
        Self::plain(max_hp, 0, 20, 0, false)
    }

    pub open spec fn spec_rammer(max_hp: u32) -> BaseStats {
        Self::spec_plain(max_hp, 30, 30, 1, true)
    }

    /// A unit carried on a rammer keeps its health and has the rammer's other statistics.
    #[verifier::when_used_as_spec(spec_rammer)]
    pub fn rammer(max_hp: u32) -> (r: BaseStats)
        ensures
            r == Self::spec_rammer(max_hp),
    {
        Self::plain(max_hp, 30, 30, 1, true)
    }

    pub open spec fn spec_scout(max_hp: u32) -> BaseStats {
        Self::spec_plain(max_hp, 20, 10, 2, true)
    }

    /// A unit carried on a scout keeps its health and has the scout's other statistics.
    #[verifier::when_used_as_spec(spec_scout)]
    pub fn scout(max_hp: u32) -> (r: BaseStats)
        ensures
            r == Self::spec_scout(max_hp),
    {
        Self::plain(max_hp, 20, 10, 2, true)
    }

    /// The table of base statistics.
    pub open spec fn spec_of(unit_type: UnitType) -> BaseStats {
        match unit_type {
            UnitType::Archer => BaseStats::plain(100, 20, 10, 2, true),
            UnitType::BabyDragon => BaseStats::plain(150, 30, 30, 1, true),
            UnitType::BattleSled => BaseStats::plain(150, 30, 20, 1, true),
            UnitType::Catapult => BaseStats::plain(100, 40, 0, 3, false),
            UnitType::Centipede => BaseStats::plain(200, 40, 30, 1, true),
            UnitType::Cloak => BaseStats::plain(50, 0, 5, 1, false),
            UnitType::Crab => BaseStats::plain(400, 40, 50, 1, true),
            UnitType::Dagger => BaseStats {
                max_hp: 100,
                attack: 20,
                defense: 20,
                range: 1,
                retaliates: true,
                surprise: true,
                tentacles: false,
                trait_effects: StatusEffects::empty(),
            },
            UnitType::DefaultWarrior => BaseStats::plain(100, 20, 20, 1, true),
            UnitType::Defender => BaseStats::plain(150, 10, 30, 1, true),
            UnitType::Doomux => BaseStats::plain(200, 40, 20, 1, true),
            UnitType::Egg => BaseStats::plain(100, 0, 20, 1, false),
            UnitType::Exida => BaseStats {
                max_hp: 100,
                attack: 30,
                defense: 10,
                range: 3,
                retaliates: false,
                surprise: false,
                tentacles: false,
                trait_effects: StatusEffects { poisoned: true, ..StatusEffects::empty() },
            },
            UnitType::FireDragon => BaseStats::plain(200, 40, 30, 2, true),
            UnitType::Gaami => BaseStats::plain(300, 40, 40, 1, true),
            UnitType::Giant => BaseStats::plain(400, 50, 40, 1, true),
            UnitType::Hexapod => BaseStats::plain(50, 30, 10, 1, true),
            UnitType::IceArcher => BaseStats {
                max_hp: 100,
                attack: 1,
                defense: 10,
                range: 2,
                retaliates: false,
                surprise: false,
                tentacles: false,
                trait_effects: StatusEffects { frozen: true, ..StatusEffects::empty() },
            },
            UnitType::IceFortress => BaseStats::plain(200, 40, 30, 2, true),
            UnitType::Jelly => BaseStats {
                max_hp: 200,
                attack: 20,
                defense: 20,
                range: 1,
                retaliates: false,
                surprise: false,
                tentacles: true,
                trait_effects: StatusEffects::empty(),
            },
            UnitType::Juggernaut => BaseStats::plain(400, 40, 40, 1, false),
            UnitType::Kiton => BaseStats {
                max_hp: 150,
                attack: 10,
                defense: 30,
                range: 1,
                retaliates: true,
                surprise: false,
                tentacles: false,
                trait_effects: StatusEffects { poisoned: true, ..StatusEffects::empty() },
            },
            UnitType::Knight => BaseStats::plain(100, 35, 10, 1, true),
            UnitType::MindBender => BaseStats {
                max_hp: 100,
                attack: 0,
                defense: 10,
                range: 1,
                retaliates: false,
                surprise: false,
                tentacles: false,
                trait_effects: StatusEffects { converted: true, ..StatusEffects::empty() },
            },
            UnitType::Mooni => BaseStats::plain(100, 0, 10, 1, false),
            UnitType::Phychi => BaseStats {
                max_hp: 50,
                attack: 10,
                defense: 10,
                range: 2,
                retaliates: true,
                surprise: true,
                tentacles: false,
                trait_effects: StatusEffects { poisoned: true, ..StatusEffects::empty() },
            },
            UnitType::Pirate => BaseStats {
                max_hp: 100,
                attack: 20,
                defense: 20,
                range: 1,
                retaliates: true,
                surprise: true,
                tentacles: false,
                trait_effects: StatusEffects::empty(),
            },
            UnitType::Polytaur => BaseStats::plain(150, 30, 10, 1, true),
            UnitType::Puffer => BaseStats::plain(100, 40, 0, 3, false),
            UnitType::Raychi => BaseStats::plain(150, 30, 20, 1, true),
            UnitType::Rider => BaseStats::plain(100, 20, 10, 1, true),
            UnitType::Segment => BaseStats::plain(100, 20, 20, 1, false),
            UnitType::Shaman => BaseStats {
                max_hp: 100,
                attack: 10,
                defense: 10,
                range: 1,
                retaliates: true,
                surprise: false,
                tentacles: false,
                trait_effects: StatusEffects { converted: true, ..StatusEffects::empty() },
            },
            UnitType::Shark => BaseStats {
                max_hp: 100,
                attack: 35,
                defense: 20,
                range: 1,
                retaliates: true,
                surprise: true,
                tentacles: false,
                trait_effects: StatusEffects::empty(),
            },
            UnitType::Swordsman => BaseStats::plain(150, 30, 30, 1, true),
            UnitType::Tridention => BaseStats::plain(150, 25, 10, 2, true),
            UnitType::Warrior => BaseStats::plain(100, 20, 20, 1, true),
            UnitType::HexapodBomber => BaseStats::bomber(50),
            UnitType::ArcherBomber
            | UnitType::CatapultBomber
            | UnitType::DefaultWarriorBomber
            | UnitType::EggBomber
            | UnitType::ExidaBomber
            | UnitType::IceArcherBomber
            | UnitType::KnightBomber
            | UnitType::MindBenderBomber
            | UnitType::MooniBomber
            | UnitType::RiderBomber
            | UnitType::ShamanBomber
            | UnitType::WarriorBomber => BaseStats::bomber(100),
            UnitType::BattleSledBomber
            | UnitType::DefenderBomber
            | UnitType::KitonBomber
            | UnitType::PolytaurBomber
            | UnitType::SwordsmanBomber => BaseStats::bomber(150),
            UnitType::CentipedeBomber
            | UnitType::DoomuxBomber
            | UnitType::IceFortressBomber => BaseStats::bomber(200),
            UnitType::GaamiBomber => BaseStats::bomber(300),
            UnitType::HexapodRaft => BaseStats::raft(50),
            UnitType::ArcherRaft
            | UnitType::CatapultRaft
            | UnitType::DefaultWarriorRaft
            | UnitType::EggRaft
            | UnitType::ExidaRaft
            | UnitType::IceArcherRaft
            | UnitType::KnightRaft
            | UnitType::MindBenderRaft
            | UnitType::MooniRaft
            | UnitType::RiderRaft
            | UnitType::ShamanRaft
            | UnitType::WarriorRaft => BaseStats::raft(100),
            UnitType::BattleSledRaft
            | UnitType::DefenderRaft
            | UnitType::KitonRaft
            | UnitType::PolytaurRaft
            | UnitType::SwordsmanRaft => BaseStats::raft(150),
            UnitType::CentipedeRaft
            | UnitType::DoomuxRaft
            | UnitType::IceFortressRaft => BaseStats::raft(200),
            UnitType::GaamiRaft => BaseStats::raft(300),
            UnitType::HexapodRammer => BaseStats::rammer(50),
            UnitType::ArcherRammer
            | UnitType::CatapultRammer
            | UnitType::DefaultWarriorRammer
            | UnitType::EggRammer
            | UnitType::ExidaRammer
            | UnitType::IceArcherRammer
            | UnitType::KnightRammer
            | UnitType::MindBenderRammer
            | UnitType::MooniRammer
            | UnitType::RiderRammer
            | UnitType::ShamanRammer
            | UnitType::WarriorRammer => BaseStats::rammer(100),
            UnitType::BattleSledRammer
            | UnitType::DefenderRammer
            | UnitType::KitonRammer
            | UnitType::PolytaurRammer
            | UnitType::SwordsmanRammer => BaseStats::rammer(150),
            UnitType::CentipedeRammer
            | UnitType::DoomuxRammer
            | UnitType::IceFortressRammer => BaseStats::rammer(200),
            UnitType::GaamiRammer => BaseStats::rammer(300),
            UnitType::HexapodScout => BaseStats::scout(50),
            UnitType::ArcherScout
            | UnitType::CatapultScout
            | UnitType::DefaultWarriorScout
            | UnitType::EggScout
            | UnitType::ExidaScout
            | UnitType::IceArcherScout
            | UnitType::KnightScout
            | UnitType::MindBenderScout
            | UnitType::MooniScout
            | UnitType::RiderScout
            | UnitType::ShamanScout
            | UnitType::WarriorScout => BaseStats::scout(100),
            UnitType::BattleSledScout
            | UnitType::DefenderScout
            | UnitType::KitonScout
            | UnitType::PolytaurScout
            | UnitType::SwordsmanScout => BaseStats::scout(150),
            UnitType::CentipedeScout
            | UnitType::DoomuxScout
            | UnitType::IceFortressScout => BaseStats::scout(200),
            UnitType::GaamiScout => BaseStats::scout(300),
        }
    }

    /// The base statistics of a kind of unit.
    #[verifier::when_used_as_spec(spec_of)]
    pub fn of(unit_type: UnitType) -> (r: BaseStats)
        ensures
            r == Self::spec_of(unit_type),
            r.wf(),
    {
        match unit_type {
            UnitType::Archer => BaseStats::plain(100, 20, 10, 2, true),
            UnitType::BabyDragon => BaseStats::plain(150, 30, 30, 1, true),
            UnitType::BattleSled => BaseStats::plain(150, 30, 20, 1, true),
            UnitType::Catapult => BaseStats::plain(100, 40, 0, 3, false),
            UnitType::Centipede => BaseStats::plain(200, 40, 30, 1, true),
            UnitType::Cloak => BaseStats::plain(50, 0, 5, 1, false),
            UnitType::Crab => BaseStats::plain(400, 40, 50, 1, true),
            UnitType::Dagger => BaseStats {
                max_hp: 100,
                attack: 20,
                defense: 20,
                range: 1,
                retaliates: true,
                surprise: true,
                tentacles: false,
                trait_effects: StatusEffects::empty(),
            },
            UnitType::DefaultWarrior => BaseStats::plain(100, 20, 20, 1, true),
            UnitType::Defender => BaseStats::plain(150, 10, 30, 1, true),
            UnitType::Doomux => BaseStats::plain(200, 40, 20, 1, true),
            UnitType::Egg => BaseStats::plain(100, 0, 20, 1, false),
            UnitType::Exida => BaseStats {
                max_hp: 100,
                attack: 30,
                defense: 10,
                range: 3,
                retaliates: false,
                surprise: false,
                tentacles: false,
                trait_effects: StatusEffects { poisoned: true, ..StatusEffects::empty() },
            },
            UnitType::FireDragon => BaseStats::plain(200, 40, 30, 2, true),
            UnitType::Gaami => BaseStats::plain(300, 40, 40, 1, true),
            UnitType::Giant => BaseStats::plain(400, 50, 40, 1, true),
            UnitType::Hexapod => BaseStats::plain(50, 30, 10, 1, true),
            UnitType::IceArcher => BaseStats {
                max_hp: 100,
                attack: 1,
                defense: 10,
                range: 2,
                retaliates: false,
                surprise: false,
                tentacles: false,
                trait_effects: StatusEffects { frozen: true, ..StatusEffects::empty() },
            },
            UnitType::IceFortress => BaseStats::plain(200, 40, 30, 2, true),
            UnitType::Jelly => BaseStats {
                max_hp: 200,
                attack: 20,
                defense: 20,
                range: 1,
                retaliates: false,
                surprise: false,
                tentacles: true,
                trait_effects: StatusEffects::empty(),
            },
            UnitType::Juggernaut => BaseStats::plain(400, 40, 40, 1, false),
            UnitType::Kiton => BaseStats {
                max_hp: 150,
                attack: 10,
                defense: 30,
                range: 1,
                retaliates: true,
                surprise: false,
                tentacles: false,
                trait_effects: StatusEffects { poisoned: true, ..StatusEffects::empty() },
            },
            UnitType::Knight => BaseStats::plain(100, 35, 10, 1, true),
            UnitType::MindBender => BaseStats {
                max_hp: 100,
                attack: 0,
                defense: 10,
                range: 1,
                retaliates: false,
                surprise: false,
                tentacles: false,
                trait_effects: StatusEffects { converted: true, ..StatusEffects::empty() },
            },
            UnitType::Mooni => BaseStats::plain(100, 0, 10, 1, false),
            UnitType::Phychi => BaseStats {
                max_hp: 50,
                attack: 10,
                defense: 10,
                range: 2,
                retaliates: true,
                surprise: true,
                tentacles: false,
                trait_effects: StatusEffects { poisoned: true, ..StatusEffects::empty() },
            },
            UnitType::Pirate => BaseStats {
                max_hp: 100,
                attack: 20,
                defense: 20,
                range: 1,
                retaliates: true,
                surprise: true,
                tentacles: false,
                trait_effects: StatusEffects::empty(),
            },
            UnitType::Polytaur => BaseStats::plain(150, 30, 10, 1, true),
            UnitType::Puffer => BaseStats::plain(100, 40, 0, 3, false),
            UnitType::Raychi => BaseStats::plain(150, 30, 20, 1, true),
            UnitType::Rider => BaseStats::plain(100, 20, 10, 1, true),
            UnitType::Segment => BaseStats::plain(100, 20, 20, 1, false),
            UnitType::Shaman => BaseStats {
                max_hp: 100,
                attack: 10,
                defense: 10,
                range: 1,
                retaliates: true,
                surprise: false,
                tentacles: false,
                trait_effects: StatusEffects { converted: true, ..StatusEffects::empty() },
            },
            UnitType::Shark => BaseStats {
                max_hp: 100,
                attack: 35,
                defense: 20,
                range: 1,
                retaliates: true,
                surprise: true,
                tentacles: false,
                trait_effects: StatusEffects::empty(),
            },
            UnitType::Swordsman => BaseStats::plain(150, 30, 30, 1, true),
            UnitType::Tridention => BaseStats::plain(150, 25, 10, 2, true),
            UnitType::Warrior => BaseStats::plain(100, 20, 20, 1, true),
            UnitType::HexapodBomber => BaseStats::bomber(50),
            UnitType::ArcherBomber
            | UnitType::CatapultBomber
            | UnitType::DefaultWarriorBomber
            | UnitType::EggBomber
            | UnitType::ExidaBomber
            | UnitType::IceArcherBomber
            | UnitType::KnightBomber
            | UnitType::MindBenderBomber
            | UnitType::MooniBomber
            | UnitType::RiderBomber
            | UnitType::ShamanBomber
            | UnitType::WarriorBomber => BaseStats::bomber(100),
            UnitType::BattleSledBomber
            | UnitType::DefenderBomber
            | UnitType::KitonBomber
            | UnitType::PolytaurBomber
            | UnitType::SwordsmanBomber => BaseStats::bomber(150),
            UnitType::CentipedeBomber
            | UnitType::DoomuxBomber
            | UnitType::IceFortressBomber => BaseStats::bomber(200),
            UnitType::GaamiBomber => BaseStats::bomber(300),
            UnitType::HexapodRaft => BaseStats::raft(50),
            UnitType::ArcherRaft
            | UnitType::CatapultRaft
            | UnitType::DefaultWarriorRaft
            | UnitType::EggRaft
            | UnitType::ExidaRaft
            | UnitType::IceArcherRaft
            | UnitType::KnightRaft
            | UnitType::MindBenderRaft
            | UnitType::MooniRaft
            | UnitType::RiderRaft
            | UnitType::ShamanRaft
            | UnitType::WarriorRaft => BaseStats::raft(100),
            UnitType::BattleSledRaft
            | UnitType::DefenderRaft
            | UnitType::KitonRaft
            | UnitType::PolytaurRaft
            | UnitType::SwordsmanRaft => BaseStats::raft(150),
            UnitType::CentipedeRaft
            | UnitType::DoomuxRaft
            | UnitType::IceFortressRaft => BaseStats::raft(200),
            UnitType::GaamiRaft => BaseStats::raft(300),
            UnitType::HexapodRammer => BaseStats::rammer(50),
            UnitType::ArcherRammer
            | UnitType::CatapultRammer
            | UnitType::DefaultWarriorRammer
            | UnitType::EggRammer
            | UnitType::ExidaRammer
            | UnitType::IceArcherRammer
            | UnitType::KnightRammer
            | UnitType::MindBenderRammer
            | UnitType::MooniRammer
            | UnitType::RiderRammer
            | UnitType::ShamanRammer
            | UnitType::WarriorRammer => BaseStats::rammer(100),
            UnitType::BattleSledRammer
            | UnitType::DefenderRammer
            | UnitType::KitonRammer
            | UnitType::PolytaurRammer
            | UnitType::SwordsmanRammer => BaseStats::rammer(150),
            UnitType::CentipedeRammer
            | UnitType::DoomuxRammer
            | UnitType::IceFortressRammer => BaseStats::rammer(200),
            UnitType::GaamiRammer => BaseStats::rammer(300),
            UnitType::HexapodScout => BaseStats::scout(50),
            UnitType::ArcherScout
            | UnitType::CatapultScout
            | UnitType::DefaultWarriorScout
            | UnitType::EggScout
            | UnitType::ExidaScout
            | UnitType::IceArcherScout
            | UnitType::KnightScout
            | UnitType::MindBenderScout
            | UnitType::MooniScout
            | UnitType::RiderScout
            | UnitType::ShamanScout
            | UnitType::WarriorScout => BaseStats::scout(100),
            UnitType::BattleSledScout
            | UnitType::DefenderScout
            | UnitType::KitonScout
            | UnitType::PolytaurScout
            | UnitType::SwordsmanScout => BaseStats::scout(150),
            UnitType::CentipedeScout
            | UnitType::DoomuxScout
            | UnitType::IceFortressScout => BaseStats::scout(200),
            UnitType::GaamiScout => BaseStats::scout(300),
        }
    }
}

/// The defense multiplier, in tenths, that a set of active effects gives.
///
/// A wall counts before a fortification, and either counts before poison:
/// a unit behind a wall has four times its defense, a fortified unit one
/// and a half times, and poison lowers the defense only of a unit that has
/// neither.
pub open spec fn spec_defense_multiplier(effects: StatusEffects) -> u16 {
    if effects.walled {
        WALLED_BONUS
    } else if effects.fortified {
        15
    } else if effects.poisoned {
        7
    } else {
        10
    }
}

#[verifier::when_used_as_spec(spec_defense_multiplier)]
pub fn defense_multiplier(effects: StatusEffects) -> (r: u16)
    ensures
        r == spec_defense_multiplier(effects),
        0 < r <= WALLED_BONUS,
{
    if effects.walled {
        WALLED_BONUS
    } else if effects.fortified {
        15
    } else if effects.poisoned {
        7
    } else {
        10
    }
}

/// One unit in combat: what its kind gave it, and its present state.
#[derive(Clone, Copy, Debug, PartialEq, Eq, Structural)]
pub struct Unit {
    pub unit_type: UnitType,
    pub range: u8,
    /// The effects that are active on the unit.
    pub status_effects: StatusEffects,
    /// The effects that the unit inflicts on whatever it damages.
    pub trait_effects: StatusEffects,
    pub current_hp: u32,
    pub max_hp: u32,
    pub attack: u16,
    pub defense: u16,
    /// The defense multiplier in tenths, always that of `status_effects`.
    pub defense_bonus: u16,
    pub retaliates: bool,
    pub surprise: bool,
    pub tentacles: bool,
}

impl Unit {
    /// A unit is well formed when its health lies between nothing and its
    /// positive maximum, the maximum is within the limit (raised once for a
    /// veteran), and the defense multiplier is the one its effects give.
    pub open spec fn wf(self) -> bool {
        &&& 0 < self.max_hp
        &&& self.max_hp <= HEALTH_LIMIT + (if self.status_effects.veteran {
            VETERAN_BONUS
        } else {
            0
        })
        &&& self.current_hp <= self.max_hp
        &&& self.defense_bonus == defense_multiplier(self.status_effects)
    }

    /// The unit of a kind with given statistics: in full health, without active effects.
    pub open spec fn spec_from_stats(unit_type: UnitType, stats: BaseStats) -> Unit {
        Unit {
            unit_type,
            range: stats.range,
            status_effects: StatusEffects::empty(),
            trait_effects: stats.trait_effects,
            current_hp: stats.max_hp,
            max_hp: stats.max_hp,
            attack: stats.attack,
            defense: stats.defense,
            defense_bonus: 10,
            retaliates: stats.retaliates,
            surprise: stats.surprise,
            tentacles: stats.tentacles,
        }
    }

    /// A fresh unit of the given kind, from the table of base statistics.
    pub open spec fn spec_new(unit_type: UnitType) -> Unit {
        Self::spec_from_stats(unit_type, BaseStats::of(unit_type))
    }

    /// The unit after `effects` have been applied to it. A unit that becomes a
    /// veteran gains maximum health, once; its present health stays.
    pub open spec fn spec_apply(self, effects: StatusEffects) -> Unit {
        let status = self.status_effects.union(effects);
        Unit {
            max_hp: if effects.veteran && !self.status_effects.veteran {
                (self.max_hp + VETERAN_BONUS) as u32
            } else {
                self.max_hp
            },
            status_effects: status,
            defense_bonus: defense_multiplier(status),
            ..self
        }
    }

    /// Whether the unit is well formed.
    pub fn is_wf(&self) -> (r: bool)
        ensures
            r == self.wf(),
    {
        let limit: u32 = if self.status_effects.veteran {
            HEALTH_LIMIT + VETERAN_BONUS
        } else {
            HEALTH_LIMIT
        };
        0 < self.max_hp && self.max_hp <= limit && self.current_hp <= self.max_hp
            && self.defense_bonus == defense_multiplier(self.status_effects)
    }

    /// A fresh unit with statistics of the caller's choosing, or `None` where
    /// the statistics are not usable.
    pub fn from_stats(unit_type: UnitType, stats: BaseStats) -> (r: Option<Unit>)
        ensures
            stats.wf() ==> r == Some(Self::spec_from_stats(unit_type, stats)) && r.unwrap().wf(),
            !stats.wf() ==> r.is_none(),
    {
        if 0 < stats.max_hp && stats.max_hp <= HEALTH_LIMIT {
            Some(
                Unit {
                    unit_type,
                    range: stats.range,
                    status_effects: StatusEffects::empty(),
                    trait_effects: stats.trait_effects,
                    current_hp: stats.max_hp,
                    max_hp: stats.max_hp,
                    attack: stats.attack,
                    defense: stats.defense,
                    defense_bonus: 10,
                    retaliates: stats.retaliates,
                    surprise: stats.surprise,
                    tentacles: stats.tentacles,
                },
            )
        } else {
            None
        }
    }

    /// A fresh unit of the given kind: in full health, without active effects.
    pub fn new(unit_type: UnitType) -> (r: Unit)
        ensures
            r == Self::spec_new(unit_type),
            r.wf(),
    {
        let stats = BaseStats::of(unit_type);
        Unit {
            unit_type,
            range: stats.range,
            status_effects: StatusEffects::empty(),
            trait_effects: stats.trait_effects,
            current_hp: stats.max_hp,
            max_hp: stats.max_hp,
            attack: stats.attack,
            defense: stats.defense,
            defense_bonus: 10,
            retaliates: stats.retaliates,
            surprise: stats.surprise,
            tentacles: stats.tentacles,
        }
    }

    /// The unit with `status_effects` applied.
    pub fn with_status_effects(self, status_effects: StatusEffects) -> (r: Unit)
        requires
            self.wf(),
        ensures
            r == self.spec_apply(status_effects),
            r.wf(),
    {
        let mut unit = self;
        unit.apply_status_effects(status_effects);
        unit
    }

    /// The unit with its present health set to `current_hp`.
    pub fn with_current_hp(self, current_hp: u32) -> (r: Unit)
        requires
            self.wf(),
            current_hp <= self.max_hp,
        ensures
            r == (Unit { current_hp, ..self }),
            r.wf(),
    {
        let mut unit = self;
        unit.current_hp = current_hp;
        unit
    }

    /// Applies `status_effects` to the unit and sets the defense multiplier anew.
    pub fn apply_status_effects(&mut self, status_effects: StatusEffects)
        requires
            old(self).wf(),
        ensures
            *final(self) == old(self).spec_apply(status_effects),
            final(self).wf(),
    {
        if status_effects.veteran && !self.status_effects.veteran {
            self.max_hp = self.max_hp + VETERAN_BONUS;
        }
        self.status_effects.insert(status_effects);
        self.defense_bonus = defense_multiplier(self.status_effects);
    }
}

impl Default for Unit {
    fn default() -> (r: Unit)
        ensures
            r == Unit::spec_new(UnitType::DefaultWarrior),
    {
        Unit::new(UnitType::DefaultWarrior)
    }
}

} // verus!
