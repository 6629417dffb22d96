//! Waypoints: navigable locations with traits and optional chart data.

use vstd::prelude::*;

use crate::codec::{
    get_i32, get_nes, get_opt_nes, get_str, i32_json, json_get, json_get_i32, json_get_nes,
    json_get_opt_nes, json_get_str, lemma_obj_get_at, nes_json,
};
use crate::conditional_types::NonEmptyString;
use crate::faction::FactionSymbol;
use crate::json::{
    jv_wf,
    entries_view, jv, jv_seq, lemma_entries_view, lemma_jv_seq, obj_get, str_eq, Json, JsonV,
};

verus! {

#[derive(Debug, Clone, Copy, PartialEq, Eq, Structural)]
pub enum WaypointType {
    Planet,
    GasGiant,
    Moon,
    OrbitalStation,
    JumpGate,
    AsteroidField,
    Nebula,
    DebrisField,
    GravityWell,
}

impl DeepView for WaypointType {
    type V = WaypointType;

    open spec fn deep_view(&self) -> WaypointType {
        *self
    }
}

impl WaypointType {
    /// The wire tag of this value.
    pub open spec fn tag_spec(self) -> Seq<char> {
        match self {
            WaypointType::Planet => "PLANET"@,
            WaypointType::GasGiant => "GAS_GIANT"@,
            WaypointType::Moon => "MOON"@,
            WaypointType::OrbitalStation => "ORBITAL_STATION"@,
            WaypointType::JumpGate => "JUMP_GATE"@,
            WaypointType::AsteroidField => "ASTEROID_FIELD"@,
            WaypointType::Nebula => "NEBULA"@,
            WaypointType::DebrisField => "DEBRIS_FIELD"@,
            WaypointType::GravityWell => "GRAVITY_WELL"@,
        }
    }

    /// The value a wire tag denotes, if any: tags are told apart by
    /// length first, then by content.
    pub open spec fn of_tag(s: Seq<char>) -> Option<WaypointType> {
        if s.len() == 4 {
            if s == "MOON"@ {
                Some(WaypointType::Moon)
            } else {
                None
            }
        } else if s.len() == 6 {
            if s == "PLANET"@ {
                Some(WaypointType::Planet)
            } else if s == "NEBULA"@ {
                Some(WaypointType::Nebula)
            } else {
                None
            }
        } else if s.len() == 9 {
            if s == "GAS_GIANT"@ {
                Some(WaypointType::GasGiant)
            } else if s == "JUMP_GATE"@ {
                Some(WaypointType::JumpGate)
            } else {
                None
            }
        } else if s.len() == 12 {
            if s == "DEBRIS_FIELD"@ {
                Some(WaypointType::DebrisField)
            } else if s == "GRAVITY_WELL"@ {
                Some(WaypointType::GravityWell)
            } else {
                None
            }
        } else if s.len() == 14 {
            if s == "ASTEROID_FIELD"@ {
                Some(WaypointType::AsteroidField)
            } else {
                None
            }
        } else if s.len() == 15 {
            if s == "ORBITAL_STATION"@ {
                Some(WaypointType::OrbitalStation)
            } else {
                None
            }
        } else {
            None
        }
    }

    /// The wire tag of this value.
    pub fn as_str(&self) -> (r: &'static str)
        ensures
            r@ == self.tag_spec(),
    {
        match self {
            WaypointType::Planet => "PLANET",
            WaypointType::GasGiant => "GAS_GIANT",
            WaypointType::Moon => "MOON",
            WaypointType::OrbitalStation => "ORBITAL_STATION",
            WaypointType::JumpGate => "JUMP_GATE",
            WaypointType::AsteroidField => "ASTEROID_FIELD",
            WaypointType::Nebula => "NEBULA",
            WaypointType::DebrisField => "DEBRIS_FIELD",
            WaypointType::GravityWell => "GRAVITY_WELL",
        }
    }

    /// Parse a wire tag; unknown tags are rejected.
    pub fn from_tag(s: &str) -> (r: Option<WaypointType>)
        ensures
            r == WaypointType::of_tag(s@),
    {
        let n = s.unicode_len();
        if n == 4 {
            if str_eq(s, "MOON") {
                Some(WaypointType::Moon)
            } else {
                None
            }
        } else if n == 6 {
            if str_eq(s, "PLANET") {
                Some(WaypointType::Planet)
            } else if str_eq(s, "NEBULA") {
                Some(WaypointType::Nebula)
            } else {
                None
            }
        } else if n == 9 {
            if str_eq(s, "GAS_GIANT") {
                Some(WaypointType::GasGiant)
            } else if str_eq(s, "JUMP_GATE") {
                Some(WaypointType::JumpGate)
            } else {
                None
            }
        } else if n == 12 {
            if str_eq(s, "DEBRIS_FIELD") {
                Some(WaypointType::DebrisField)
            } else if str_eq(s, "GRAVITY_WELL") {
                Some(WaypointType::GravityWell)
            } else {
                None
            }
        } else if n == 14 {
            if str_eq(s, "ASTEROID_FIELD") {
                Some(WaypointType::AsteroidField)
            } else {
                None
            }
        } else if n == 15 {
            if str_eq(s, "ORBITAL_STATION") {
                Some(WaypointType::OrbitalStation)
            } else {
                None
            }
        } else {
            None
        }
    }

    /// Writing a value's tag and reading it back yields the value.
    pub proof fn lemma_tag_round_trip(self)
        ensures
            WaypointType::of_tag(self.tag_spec()) == Some(self),
    {
        match self {
            WaypointType::Planet => {
                reveal_strlit("PLANET");
            }
            WaypointType::GasGiant => {
                reveal_strlit("GAS_GIANT");
            }
            WaypointType::Moon => {
                reveal_strlit("MOON");
            }
            WaypointType::OrbitalStation => {
                reveal_strlit("ORBITAL_STATION");
            }
            WaypointType::JumpGate => {
                reveal_strlit("JUMP_GATE");
                reveal_strlit("GAS_GIANT");
                assert("JUMP_GATE"@[0] != 'G');
            }
            WaypointType::AsteroidField => {
                reveal_strlit("ASTEROID_FIELD");
            }
            WaypointType::Nebula => {
                reveal_strlit("NEBULA");
                reveal_strlit("PLANET");
                assert("NEBULA"@[0] != 'P');
            }
            WaypointType::DebrisField => {
                reveal_strlit("DEBRIS_FIELD");
            }
            WaypointType::GravityWell => {
                reveal_strlit("GRAVITY_WELL");
                reveal_strlit("DEBRIS_FIELD");
                assert("GRAVITY_WELL"@[0] != 'D');
            }
        }
    }
}

#[derive(Debug, Clone, Copy, PartialEq, Eq, Structural)]
pub enum WaypointTraitSymbols {
    Uncharted,
    Marketplace,
    Shipyard,
    Outpost,
    ScatteredSettlements,
    SprawlingCities,
    MegaStructures,
    Overcrowded,
    HighTech,
    Corrupt,
    Bureaucratic,
    TradingHub,
    Industrial,
    BlackMarket,
    ResearchFacility,
    MilitaryBase,
    SurveillanceOutpost,
    ExplorationOutpost,
    MineralDeposits,
    CommonMetalDeposits,
    PreciousMetalDeposits,
    RareMetalDeposits,
    MethanePools,
    IceCrystals,
    ExplosiveGases,
    StrongMagnetosphere,
    VibrantAuroras,
    SaltFlats,
    Canyons,
    PerpetualDaylight,
    PerpetualOvercast,
    DrySeabeds,
    MagmaSeas,
    Supervolcanoes,
    AshClouds,
    VastRuins,
    MutatedFlora,
    Terraformed,
    ExtremeTemperatures,
    ExtremePressure,
    DiverseLife,
    ScarceLife,
    Fossils,
    WeakGravity,
    StrongGravity,
    CrushingGravity,
    ToxicAtmosphere,
    CorrosiveAtmosphere,
    BreathableAtmosphere,
    Jovian,
    Rocky,
    Volcanic,
    Frozen,
    Swamp,
    Barren,
    Temperate,
    Jungle,
    Ocean,
    Stripped,
}

impl DeepView for WaypointTraitSymbols {
    type V = WaypointTraitSymbols;

    open spec fn deep_view(&self) -> WaypointTraitSymbols {
        *self
    }
}

impl WaypointTraitSymbols {
    /// The wire tag of this value.
    pub open spec fn tag_spec(self) -> Seq<char> {
        match self {
            WaypointTraitSymbols::Uncharted => "UNCHARTED"@,
            WaypointTraitSymbols::Marketplace => "MARKETPLACE"@,
            WaypointTraitSymbols::Shipyard => "SHIPYARD"@,
            WaypointTraitSymbols::Outpost => "OUTPOST"@,
            WaypointTraitSymbols::ScatteredSettlements => "SCATTERED_SETTLEMENTS"@,
            WaypointTraitSymbols::SprawlingCities => "SPRAWLING_CITIES"@,
            WaypointTraitSymbols::MegaStructures => "MEGA_STRUCTURES"@,
            WaypointTraitSymbols::Overcrowded => "OVERCROWDED"@,
            WaypointTraitSymbols::HighTech => "HIGH_TECH"@,
            WaypointTraitSymbols::Corrupt => "CORRUPT"@,
            WaypointTraitSymbols::Bureaucratic => "BUREAUCRATIC"@,
            WaypointTraitSymbols::TradingHub => "TRADING_HUB"@,
            WaypointTraitSymbols::Industrial => "INDUSTRIAL"@,
            WaypointTraitSymbols::BlackMarket => "BLACK_MARKET"@,
            WaypointTraitSymbols::ResearchFacility => "RESEARCH_FACILITY"@,
            WaypointTraitSymbols::MilitaryBase => "MILITARY_BASE"@,
            WaypointTraitSymbols::SurveillanceOutpost => "SURVEILLANCE_OUTPOST"@,
            WaypointTraitSymbols::ExplorationOutpost => "EXPLORATION_OUTPOST"@,
            WaypointTraitSymbols::MineralDeposits => "MINERAL_DEPOSITS"@,
            WaypointTraitSymbols::CommonMetalDeposits => "COMMON_METAL_DEPOSITS"@,
            WaypointTraitSymbols::PreciousMetalDeposits => "PRECIOUS_METAL_DEPOSITS"@,
            WaypointTraitSymbols::RareMetalDeposits => "RARE_METAL_DEPOSITS"@,
            WaypointTraitSymbols::MethanePools => "METHANE_POOLS"@,
            WaypointTraitSymbols::IceCrystals => "ICE_CRYSTALS"@,
            WaypointTraitSymbols::ExplosiveGases => "EXPLOSIVE_GASES"@,
            WaypointTraitSymbols::StrongMagnetosphere => "STRONG_MAGNETOSPHERE"@,
            WaypointTraitSymbols::VibrantAuroras => "VIBRANT_AURORAS"@,
            WaypointTraitSymbols::SaltFlats => "SALT_FLATS"@,
            WaypointTraitSymbols::Canyons => "CANYONS"@,
            WaypointTraitSymbols::PerpetualDaylight => "PERPETUAL_DAYLIGHT"@,
            WaypointTraitSymbols::PerpetualOvercast => "PERPETUAL_OVERCAST"@,
            WaypointTraitSymbols::DrySeabeds => "DRY_SEABEDS"@,
            WaypointTraitSymbols::MagmaSeas => "MAGMA_SEAS"@,
            WaypointTraitSymbols::Supervolcanoes => "SUPERVOLCANOES"@,
            WaypointTraitSymbols::AshClouds => "ASH_CLOUDS"@,
            WaypointTraitSymbols::VastRuins => "VAST_RUINS"@,
            WaypointTraitSymbols::MutatedFlora => "MUTATED_FLORA"@,
            WaypointTraitSymbols::Terraformed => "TERRAFORMED"@,
            WaypointTraitSymbols::ExtremeTemperatures => "EXTREME_TEMPERATURES"@,
            WaypointTraitSymbols::ExtremePressure => "EXTREME_PRESSURE"@,
            WaypointTraitSymbols::DiverseLife => "DIVERSE_LIFE"@,
            WaypointTraitSymbols::ScarceLife => "SCARCE_LIFE"@,
            WaypointTraitSymbols::Fossils => "FOSSILS"@,
            WaypointTraitSymbols::WeakGravity => "WEAK_GRAVITY"@,
            WaypointTraitSymbols::StrongGravity => "STRONG_GRAVITY"@,
            WaypointTraitSymbols::CrushingGravity => "CRUSHING_GRAVITY"@,
            WaypointTraitSymbols::ToxicAtmosphere => "TOXIC_ATMOSPHERE"@,
            WaypointTraitSymbols::CorrosiveAtmosphere => "CORROSIVE_ATMOSPHERE"@,
            WaypointTraitSymbols::BreathableAtmosphere => "BREATHABLE_ATMOSPHERE"@,
            WaypointTraitSymbols::Jovian => "JOVIAN"@,
            WaypointTraitSymbols::Rocky => "ROCKY"@,
            WaypointTraitSymbols::Volcanic => "VOLCANIC"@,
            WaypointTraitSymbols::Frozen => "FROZEN"@,
            WaypointTraitSymbols::Swamp => "SWAMP"@,
            WaypointTraitSymbols::Barren => "BARREN"@,
            WaypointTraitSymbols::Temperate => "TEMPERATE"@,
            WaypointTraitSymbols::Jungle => "JUNGLE"@,
            WaypointTraitSymbols::Ocean => "OCEAN"@,
            WaypointTraitSymbols::Stripped => "STRIPPED"@,
        }
    }

    /// The value a wire tag denotes, if any: tags are told apart by
    /// length first, then by content.
    pub open spec fn of_tag(s: Seq<char>) -> Option<WaypointTraitSymbols> {
        if s.len() == 5 {
            if s == "ROCKY"@ {
                Some(WaypointTraitSymbols::Rocky)
            } else if s == "SWAMP"@ {
                Some(WaypointTraitSymbols::Swamp)
            } else if s == "OCEAN"@ {
                Some(WaypointTraitSymbols::Ocean)
            } else {
                None
            }
        } else if s.len() == 6 {
            if s == "JOVIAN"@ {
                Some(WaypointTraitSymbols::Jovian)
            } else if s == "FROZEN"@ {
                Some(WaypointTraitSymbols::Frozen)
            } else if s == "BARREN"@ {
                Some(WaypointTraitSymbols::Barren)
            } else if s == "JUNGLE"@ {
                Some(WaypointTraitSymbols::Jungle)
            } else {
                None
            }
        } else if s.len() == 7 {
            if s == "OUTPOST"@ {
                Some(WaypointTraitSymbols::Outpost)
            } else if s == "CORRUPT"@ {
                Some(WaypointTraitSymbols::Corrupt)
            } else if s == "CANYONS"@ {
                Some(WaypointTraitSymbols::Canyons)
            } else if s == "FOSSILS"@ {
                Some(WaypointTraitSymbols::Fossils)
            } else {
                None
            }
        } else if s.len() == 8 {
            if s == "SHIPYARD"@ {
                Some(WaypointTraitSymbols::Shipyard)
            } else if s == "VOLCANIC"@ {
                Some(WaypointTraitSymbols::Volcanic)
            } else if s == "STRIPPED"@ {
                Some(WaypointTraitSymbols::Stripped)
            } else {
                None
            }
        } else if s.len() == 9 {
            if s == "UNCHARTED"@ {
                Some(WaypointTraitSymbols::Uncharted)
            } else if s == "HIGH_TECH"@ {
                Some(WaypointTraitSymbols::HighTech)
            } else if s == "TEMPERATE"@ {
                Some(WaypointTraitSymbols::Temperate)
            } else {
                None
            }
        } else if s.len() == 10 {
            if s == "INDUSTRIAL"@ {
                Some(WaypointTraitSymbols::Industrial)
            } else if s == "SALT_FLATS"@ {
                Some(WaypointTraitSymbols::SaltFlats)
            } else if s == "MAGMA_SEAS"@ {
                Some(WaypointTraitSymbols::MagmaSeas)
            } else if s == "ASH_CLOUDS"@ {
                Some(WaypointTraitSymbols::AshClouds)
            } else if s == "VAST_RUINS"@ {
                Some(WaypointTraitSymbols::VastRuins)
            } else {
                None
            }
        } else if s.len() == 11 {
            if s == "MARKETPLACE"@ {
                Some(WaypointTraitSymbols::Marketplace)
            } else if s == "OVERCROWDED"@ {
                Some(WaypointTraitSymbols::Overcrowded)
            } else if s == "TRADING_HUB"@ {
                Some(WaypointTraitSymbols::TradingHub)
            } else if s == "DRY_SEABEDS"@ {
                Some(WaypointTraitSymbols::DrySeabeds)
            } else if s == "TERRAFORMED"@ {
                Some(WaypointTraitSymbols::Terraformed)
            } else if s == "SCARCE_LIFE"@ {
                Some(WaypointTraitSymbols::ScarceLife)
            } else {
                None
            }
        } else if s.len() == 12 {
            if s == "BUREAUCRATIC"@ {
                Some(WaypointTraitSymbols::Bureaucratic)
            } else if s == "BLACK_MARKET"@ {
                Some(WaypointTraitSymbols::BlackMarket)
            } else if s == "ICE_CRYSTALS"@ {
                Some(WaypointTraitSymbols::IceCrystals)
            } else if s == "DIVERSE_LIFE"@ {
                Some(WaypointTraitSymbols::DiverseLife)
            } else if s == "WEAK_GRAVITY"@ {
                Some(WaypointTraitSymbols::WeakGravity)
            } else {
                None
            }
        } else if s.len() == 13 {
            if s == "MILITARY_BASE"@ {
                Some(WaypointTraitSymbols::MilitaryBase)
            } else if s == "METHANE_POOLS"@ {
                Some(WaypointTraitSymbols::MethanePools)
            } else if s == "MUTATED_FLORA"@ {
                Some(WaypointTraitSymbols::MutatedFlora)
            } else {
                None
            }
        } else if s.len() == 14 {
            if s == "SUPERVOLCANOES"@ {
                Some(WaypointTraitSymbols::Supervolcanoes)
            } else if s == "STRONG_GRAVITY"@ {
                Some(WaypointTraitSymbols::StrongGravity)
            } else {
                None
            }
        } else if s.len() == 15 {
            if s == "MEGA_STRUCTURES"@ {
                Some(WaypointTraitSymbols::MegaStructures)
            } else if s == "EXPLOSIVE_GASES"@ {
                Some(WaypointTraitSymbols::ExplosiveGases)
            } else if s == "VIBRANT_AURORAS"@ {
                Some(WaypointTraitSymbols::VibrantAuroras)
            } else {
                None
            }
        } else if s.len() == 16 {
            if s == "SPRAWLING_CITIES"@ {
                Some(WaypointTraitSymbols::SprawlingCities)
            } else if s == "MINERAL_DEPOSITS"@ {
                Some(WaypointTraitSymbols::MineralDeposits)
            } else if s == "EXTREME_PRESSURE"@ {
                Some(WaypointTraitSymbols::ExtremePressure)
            } else if s == "CRUSHING_GRAVITY"@ {
                Some(WaypointTraitSymbols::CrushingGravity)
            } else if s == "TOXIC_ATMOSPHERE"@ {
                Some(WaypointTraitSymbols::ToxicAtmosphere)
            } else {
                None
            }
        } else if s.len() == 17 {
            if s == "RESEARCH_FACILITY"@ {
                Some(WaypointTraitSymbols::ResearchFacility)
            } else {
                None
            }
        } else if s.len() == 18 {
            if s == "PERPETUAL_DAYLIGHT"@ {
                Some(WaypointTraitSymbols::PerpetualDaylight)
            } else if s == "PERPETUAL_OVERCAST"@ {
                Some(WaypointTraitSymbols::PerpetualOvercast)
            } else {
                None
            }
        } else if s.len() == 19 {
            if s == "EXPLORATION_OUTPOST"@ {
                Some(WaypointTraitSymbols::ExplorationOutpost)
            } else if s == "RARE_METAL_DEPOSITS"@ {
                Some(WaypointTraitSymbols::RareMetalDeposits)
            } else {
                None
            }
        } else if s.len() == 20 {
            if s == "SURVEILLANCE_OUTPOST"@ {
                Some(WaypointTraitSymbols::SurveillanceOutpost)
            } else if s == "STRONG_MAGNETOSPHERE"@ {
                Some(WaypointTraitSymbols::StrongMagnetosphere)
            } else if s == "EXTREME_TEMPERATURES"@ {
                Some(WaypointTraitSymbols::ExtremeTemperatures)
            } else if s == "CORROSIVE_ATMOSPHERE"@ {
                Some(WaypointTraitSymbols::CorrosiveAtmosphere)
            } else {
                None
            }
        } else if s.len() == 21 {
            if s == "SCATTERED_SETTLEMENTS"@ {
                Some(WaypointTraitSymbols::ScatteredSettlements)
            } else if s == "COMMON_METAL_DEPOSITS"@ {
                Some(WaypointTraitSymbols::CommonMetalDeposits)
            } else if s == "BREATHABLE_ATMOSPHERE"@ {
                Some(WaypointTraitSymbols::BreathableAtmosphere)
            } else {
                None
            }
        } else if s.len() == 23 {
            if s == "PRECIOUS_METAL_DEPOSITS"@ {
                Some(WaypointTraitSymbols::PreciousMetalDeposits)
            } else {
                None
            }
        } else {
            None
        }
    }

    /// The wire tag of this value.
    pub fn as_str(&self) -> (r: &'static str)
        ensures
            r@ == self.tag_spec(),
    {
        match self {
            WaypointTraitSymbols::Uncharted => "UNCHARTED",
            WaypointTraitSymbols::Marketplace => "MARKETPLACE",
            WaypointTraitSymbols::Shipyard => "SHIPYARD",
            WaypointTraitSymbols::Outpost => "OUTPOST",
            WaypointTraitSymbols::ScatteredSettlements => "SCATTERED_SETTLEMENTS",
            WaypointTraitSymbols::SprawlingCities => "SPRAWLING_CITIES",
            WaypointTraitSymbols::MegaStructures => "MEGA_STRUCTURES",
            WaypointTraitSymbols::Overcrowded => "OVERCROWDED",
            WaypointTraitSymbols::HighTech => "HIGH_TECH",
            WaypointTraitSymbols::Corrupt => "CORRUPT",
            WaypointTraitSymbols::Bureaucratic => "BUREAUCRATIC",
            WaypointTraitSymbols::TradingHub => "TRADING_HUB",
            WaypointTraitSymbols::Industrial => "INDUSTRIAL",
            WaypointTraitSymbols::BlackMarket => "BLACK_MARKET",
            WaypointTraitSymbols::ResearchFacility => "RESEARCH_FACILITY",
            WaypointTraitSymbols::MilitaryBase => "MILITARY_BASE",
            WaypointTraitSymbols::SurveillanceOutpost => "SURVEILLANCE_OUTPOST",
            WaypointTraitSymbols::ExplorationOutpost => "EXPLORATION_OUTPOST",
            WaypointTraitSymbols::MineralDeposits => "MINERAL_DEPOSITS",
            WaypointTraitSymbols::CommonMetalDeposits => "COMMON_METAL_DEPOSITS",
            WaypointTraitSymbols::PreciousMetalDeposits => "PRECIOUS_METAL_DEPOSITS",
            WaypointTraitSymbols::RareMetalDeposits => "RARE_METAL_DEPOSITS",
            WaypointTraitSymbols::MethanePools => "METHANE_POOLS",
            WaypointTraitSymbols::IceCrystals => "ICE_CRYSTALS",
            WaypointTraitSymbols::ExplosiveGases => "EXPLOSIVE_GASES",
            WaypointTraitSymbols::StrongMagnetosphere => "STRONG_MAGNETOSPHERE",
            WaypointTraitSymbols::VibrantAuroras => "VIBRANT_AURORAS",
            WaypointTraitSymbols::SaltFlats => "SALT_FLATS",
            WaypointTraitSymbols::Canyons => "CANYONS",
            WaypointTraitSymbols::PerpetualDaylight => "PERPETUAL_DAYLIGHT",
            WaypointTraitSymbols::PerpetualOvercast => "PERPETUAL_OVERCAST",
            WaypointTraitSymbols::DrySeabeds => "DRY_SEABEDS",
            WaypointTraitSymbols::MagmaSeas => "MAGMA_SEAS",
            WaypointTraitSymbols::Supervolcanoes => "SUPERVOLCANOES",
            WaypointTraitSymbols::AshClouds => "ASH_CLOUDS",
            WaypointTraitSymbols::VastRuins => "VAST_RUINS",
            WaypointTraitSymbols::MutatedFlora => "MUTATED_FLORA",
            WaypointTraitSymbols::Terraformed => "TERRAFORMED",
            WaypointTraitSymbols::ExtremeTemperatures => "EXTREME_TEMPERATURES",
            WaypointTraitSymbols::ExtremePressure => "EXTREME_PRESSURE",
            WaypointTraitSymbols::DiverseLife => "DIVERSE_LIFE",
            WaypointTraitSymbols::ScarceLife => "SCARCE_LIFE",
            WaypointTraitSymbols::Fossils => "FOSSILS",
            WaypointTraitSymbols::WeakGravity => "WEAK_GRAVITY",
            WaypointTraitSymbols::StrongGravity => "STRONG_GRAVITY",
            WaypointTraitSymbols::CrushingGravity => "CRUSHING_GRAVITY",
            WaypointTraitSymbols::ToxicAtmosphere => "TOXIC_ATMOSPHERE",
            WaypointTraitSymbols::CorrosiveAtmosphere => "CORROSIVE_ATMOSPHERE",
            WaypointTraitSymbols::BreathableAtmosphere => "BREATHABLE_ATMOSPHERE",
            WaypointTraitSymbols::Jovian => "JOVIAN",
            WaypointTraitSymbols::Rocky => "ROCKY",
            WaypointTraitSymbols::Volcanic => "VOLCANIC",
            WaypointTraitSymbols::Frozen => "FROZEN",
            WaypointTraitSymbols::Swamp => "SWAMP",
            WaypointTraitSymbols::Barren => "BARREN",
            WaypointTraitSymbols::Temperate => "TEMPERATE",
            WaypointTraitSymbols::Jungle => "JUNGLE",
            WaypointTraitSymbols::Ocean => "OCEAN",
            WaypointTraitSymbols::Stripped => "STRIPPED",
        }
    }

    /// Parse a wire tag; unknown tags are rejected.
    pub fn from_tag(s: &str) -> (r: Option<WaypointTraitSymbols>)
        ensures
            r == WaypointTraitSymbols::of_tag(s@),
    {
        let n = s.unicode_len();
        if n == 5 {
            if str_eq(s, "ROCKY") {
                Some(WaypointTraitSymbols::Rocky)
            } else if str_eq(s, "SWAMP") {
                Some(WaypointTraitSymbols::Swamp)
            } else if str_eq(s, "OCEAN") {
                Some(WaypointTraitSymbols::Ocean)
            } else {
                None
            }
        } else if n == 6 {
            if str_eq(s, "JOVIAN") {
                Some(WaypointTraitSymbols::Jovian)
            } else if str_eq(s, "FROZEN") {
                Some(WaypointTraitSymbols::Frozen)
            } else if str_eq(s, "BARREN") {
                Some(WaypointTraitSymbols::Barren)
            } else if str_eq(s, "JUNGLE") {
                Some(WaypointTraitSymbols::Jungle)
            } else {
                None
            }
        } else if n == 7 {
            if str_eq(s, "OUTPOST") {
                Some(WaypointTraitSymbols::Outpost)
            } else if str_eq(s, "CORRUPT") {
                Some(WaypointTraitSymbols::Corrupt)
            } else if str_eq(s, "CANYONS") {
                Some(WaypointTraitSymbols::Canyons)
            } else if str_eq(s, "FOSSILS") {
                Some(WaypointTraitSymbols::Fossils)
            } else {
                None
            }
        } else if n == 8 {
            if str_eq(s, "SHIPYARD") {
                Some(WaypointTraitSymbols::Shipyard)
            } else if str_eq(s, "VOLCANIC") {
                Some(WaypointTraitSymbols::Volcanic)
            } else if str_eq(s, "STRIPPED") {
                Some(WaypointTraitSymbols::Stripped)
            } else {
                None
            }
        } else if n == 9 {
            if str_eq(s, "UNCHARTED") {
                Some(WaypointTraitSymbols::Uncharted)
            } else if str_eq(s, "HIGH_TECH") {
                Some(WaypointTraitSymbols::HighTech)
            } else if str_eq(s, "TEMPERATE") {
                Some(WaypointTraitSymbols::Temperate)
            } else {
                None
            }
        } else if n == 10 {
            if str_eq(s, "INDUSTRIAL") {
                Some(WaypointTraitSymbols::Industrial)
            } else if str_eq(s, "SALT_FLATS") {
                Some(WaypointTraitSymbols::SaltFlats)
            } else if str_eq(s, "MAGMA_SEAS") {
                Some(WaypointTraitSymbols::MagmaSeas)
            } else if str_eq(s, "ASH_CLOUDS") {
                Some(WaypointTraitSymbols::AshClouds)
            } else if str_eq(s, "VAST_RUINS") {
                Some(WaypointTraitSymbols::VastRuins)
            } else {
                None
            }
        } else if n == 11 {
            if str_eq(s, "MARKETPLACE") {
                Some(WaypointTraitSymbols::Marketplace)
            } else if str_eq(s, "OVERCROWDED") {
                Some(WaypointTraitSymbols::Overcrowded)
            } else if str_eq(s, "TRADING_HUB") {
                Some(WaypointTraitSymbols::TradingHub)
            } else if str_eq(s, "DRY_SEABEDS") {
                Some(WaypointTraitSymbols::DrySeabeds)
            } else if str_eq(s, "TERRAFORMED") {
                Some(WaypointTraitSymbols::Terraformed)
            } else if str_eq(s, "SCARCE_LIFE") {
                Some(WaypointTraitSymbols::ScarceLife)
            } else {
                None
            }
        } else if n == 12 {
            if str_eq(s, "BUREAUCRATIC") {
                Some(WaypointTraitSymbols::Bureaucratic)
            } else if str_eq(s, "BLACK_MARKET") {
                Some(WaypointTraitSymbols::BlackMarket)
            } else if str_eq(s, "ICE_CRYSTALS") {
                Some(WaypointTraitSymbols::IceCrystals)
            } else if str_eq(s, "DIVERSE_LIFE") {
                Some(WaypointTraitSymbols::DiverseLife)
            } else if str_eq(s, "WEAK_GRAVITY") {
                Some(WaypointTraitSymbols::WeakGravity)
            } else {
                None
            }
        } else if n == 13 {
            if str_eq(s, "MILITARY_BASE") {
                Some(WaypointTraitSymbols::MilitaryBase)
            } else if str_eq(s, "METHANE_POOLS") {
                Some(WaypointTraitSymbols::MethanePools)
            } else if str_eq(s, "MUTATED_FLORA") {
                Some(WaypointTraitSymbols::MutatedFlora)
            } else {
                None
            }
        } else if n == 14 {
            if str_eq(s, "SUPERVOLCANOES") {
                Some(WaypointTraitSymbols::Supervolcanoes)
            } else if str_eq(s, "STRONG_GRAVITY") {
                Some(WaypointTraitSymbols::StrongGravity)
            } else {
                None
            }
        } else if n == 15 {
            if str_eq(s, "MEGA_STRUCTURES") {
                Some(WaypointTraitSymbols::MegaStructures)
            } else if str_eq(s, "EXPLOSIVE_GASES") {
                Some(WaypointTraitSymbols::ExplosiveGases)
            } else if str_eq(s, "VIBRANT_AURORAS") {
                Some(WaypointTraitSymbols::VibrantAuroras)
            } else {
                None
            }
        } else if n == 16 {
            if str_eq(s, "SPRAWLING_CITIES") {
                Some(WaypointTraitSymbols::SprawlingCities)
            } else if str_eq(s, "MINERAL_DEPOSITS") {
                Some(WaypointTraitSymbols::MineralDeposits)
            } else if str_eq(s, "EXTREME_PRESSURE") {
                Some(WaypointTraitSymbols::ExtremePressure)
            } else if str_eq(s, "CRUSHING_GRAVITY") {
                Some(WaypointTraitSymbols::CrushingGravity)
            } else if str_eq(s, "TOXIC_ATMOSPHERE") {
                Some(WaypointTraitSymbols::ToxicAtmosphere)
            } else {
                None
            }
        } else if n == 17 {
            if str_eq(s, "RESEARCH_FACILITY") {
                Some(WaypointTraitSymbols::ResearchFacility)
            } else {
                None
            }
        } else if n == 18 {
            if str_eq(s, "PERPETUAL_DAYLIGHT") {
                Some(WaypointTraitSymbols::PerpetualDaylight)
            } else if str_eq(s, "PERPETUAL_OVERCAST") {
                Some(WaypointTraitSymbols::PerpetualOvercast)
            } else {
                None
            }
        } else if n == 19 {
            if str_eq(s, "EXPLORATION_OUTPOST") {
                Some(WaypointTraitSymbols::ExplorationOutpost)
            } else if str_eq(s, "RARE_METAL_DEPOSITS") {
                Some(WaypointTraitSymbols::RareMetalDeposits)
            } else {
                None
            }
        } else if n == 20 {
            if str_eq(s, "SURVEILLANCE_OUTPOST") {
                Some(WaypointTraitSymbols::SurveillanceOutpost)
            } else if str_eq(s, "STRONG_MAGNETOSPHERE") {
                Some(WaypointTraitSymbols::StrongMagnetosphere)
            } else if str_eq(s, "EXTREME_TEMPERATURES") {
                Some(WaypointTraitSymbols::ExtremeTemperatures)
            } else if str_eq(s, "CORROSIVE_ATMOSPHERE") {
                Some(WaypointTraitSymbols::CorrosiveAtmosphere)
            } else {
                None
            }
        } else if n == 21 {
            if str_eq(s, "SCATTERED_SETTLEMENTS") {
                Some(WaypointTraitSymbols::ScatteredSettlements)
            } else if str_eq(s, "COMMON_METAL_DEPOSITS") {
                Some(WaypointTraitSymbols::CommonMetalDeposits)
            } else if str_eq(s, "BREATHABLE_ATMOSPHERE") {
                Some(WaypointTraitSymbols::BreathableAtmosphere)
            } else {
                None
            }
        } else if n == 23 {
            if str_eq(s, "PRECIOUS_METAL_DEPOSITS") {
                Some(WaypointTraitSymbols::PreciousMetalDeposits)
            } else {
                None
            }
        } else {
            None
        }
    }

    proof fn lemma_tag_uncharted()
        ensures
            WaypointTraitSymbols::of_tag("UNCHARTED"@) == Some(WaypointTraitSymbols::Uncharted),
    {
        reveal_strlit("UNCHARTED");
    }

    proof fn lemma_tag_marketplace()
        ensures
            WaypointTraitSymbols::of_tag("MARKETPLACE"@) == Some(WaypointTraitSymbols::Marketplace),
    {
        reveal_strlit("MARKETPLACE");
    }

    proof fn lemma_tag_shipyard()
        ensures
            WaypointTraitSymbols::of_tag("SHIPYARD"@) == Some(WaypointTraitSymbols::Shipyard),
    {
        reveal_strlit("SHIPYARD");
    }

    proof fn lemma_tag_outpost()
        ensures
            WaypointTraitSymbols::of_tag("OUTPOST"@) == Some(WaypointTraitSymbols::Outpost),
    {
        reveal_strlit("OUTPOST");
    }

    proof fn lemma_tag_scattered_settlements()
        ensures
            WaypointTraitSymbols::of_tag("SCATTERED_SETTLEMENTS"@) == Some(WaypointTraitSymbols::ScatteredSettlements),
    {
        reveal_strlit("SCATTERED_SETTLEMENTS");
    }

    proof fn lemma_tag_sprawling_cities()
        ensures
            WaypointTraitSymbols::of_tag("SPRAWLING_CITIES"@) == Some(WaypointTraitSymbols::SprawlingCities),
    {
        reveal_strlit("SPRAWLING_CITIES");
    }

    proof fn lemma_tag_mega_structures()
        ensures
            WaypointTraitSymbols::of_tag("MEGA_STRUCTURES"@) == Some(WaypointTraitSymbols::MegaStructures),
    {
        reveal_strlit("MEGA_STRUCTURES");
    }

    proof fn lemma_tag_overcrowded()
        ensures
            WaypointTraitSymbols::of_tag("OVERCROWDED"@) == Some(WaypointTraitSymbols::Overcrowded),
    {
        reveal_strlit("OVERCROWDED");
        reveal_strlit("MARKETPLACE");
        assert("OVERCROWDED"@[0] != 'M');
    }

    proof fn lemma_tag_high_tech()
        ensures
            WaypointTraitSymbols::of_tag("HIGH_TECH"@) == Some(WaypointTraitSymbols::HighTech),
    {
        reveal_strlit("HIGH_TECH");
        reveal_strlit("UNCHARTED");
        assert("HIGH_TECH"@[0] != 'U');
    }

    proof fn lemma_tag_corrupt()
        ensures
            WaypointTraitSymbols::of_tag("CORRUPT"@) == Some(WaypointTraitSymbols::Corrupt),
    {
        reveal_strlit("CORRUPT");
        reveal_strlit("OUTPOST");
        assert("CORRUPT"@[0] != 'O');
    }

    proof fn lemma_tag_bureaucratic()
        ensures
            WaypointTraitSymbols::of_tag("BUREAUCRATIC"@) == Some(WaypointTraitSymbols::Bureaucratic),
    {
        reveal_strlit("BUREAUCRATIC");
    }

    proof fn lemma_tag_trading_hub()
        ensures
            WaypointTraitSymbols::of_tag("TRADING_HUB"@) == Some(WaypointTraitSymbols::TradingHub),
    {
        reveal_strlit("TRADING_HUB");
        reveal_strlit("MARKETPLACE");
        assert("TRADING_HUB"@[0] != 'M');
        reveal_strlit("OVERCROWDED");
        assert("TRADING_HUB"@[0] != 'O');
    }

    proof fn lemma_tag_industrial()
        ensures
            WaypointTraitSymbols::of_tag("INDUSTRIAL"@) == Some(WaypointTraitSymbols::Industrial),
    {
        reveal_strlit("INDUSTRIAL");
    }

    proof fn lemma_tag_black_market()
        ensures
            WaypointTraitSymbols::of_tag("BLACK_MARKET"@) == Some(WaypointTraitSymbols::BlackMarket),
    {
        reveal_strlit("BLACK_MARKET");
        reveal_strlit("BUREAUCRATIC");
        assert("BLACK_MARKET"@[1] != 'U');
    }

    proof fn lemma_tag_research_facility()
        ensures
            WaypointTraitSymbols::of_tag("RESEARCH_FACILITY"@) == Some(WaypointTraitSymbols::ResearchFacility),
    {
        reveal_strlit("RESEARCH_FACILITY");
    }

    proof fn lemma_tag_military_base()
        ensures
            WaypointTraitSymbols::of_tag("MILITARY_BASE"@) == Some(WaypointTraitSymbols::MilitaryBase),
    {
        reveal_strlit("MILITARY_BASE");
    }

    proof fn lemma_tag_surveillance_outpost()
        ensures
            WaypointTraitSymbols::of_tag("SURVEILLANCE_OUTPOST"@) == Some(WaypointTraitSymbols::SurveillanceOutpost),
    {
        reveal_strlit("SURVEILLANCE_OUTPOST");
    }

    proof fn lemma_tag_exploration_outpost()
        ensures
            WaypointTraitSymbols::of_tag("EXPLORATION_OUTPOST"@) == Some(WaypointTraitSymbols::ExplorationOutpost),
    {
        reveal_strlit("EXPLORATION_OUTPOST");
    }

    proof fn lemma_tag_mineral_deposits()
        ensures
            WaypointTraitSymbols::of_tag("MINERAL_DEPOSITS"@) == Some(WaypointTraitSymbols::MineralDeposits),
    {
        reveal_strlit("MINERAL_DEPOSITS");
        reveal_strlit("SPRAWLING_CITIES");
        assert("MINERAL_DEPOSITS"@[0] != 'S');
    }

    proof fn lemma_tag_common_metal_deposits()
        ensures
            WaypointTraitSymbols::of_tag("COMMON_METAL_DEPOSITS"@) == Some(WaypointTraitSymbols::CommonMetalDeposits),
    {
        reveal_strlit("COMMON_METAL_DEPOSITS");
        reveal_strlit("SCATTERED_SETTLEMENTS");
        assert("COMMON_METAL_DEPOSITS"@[0] != 'S');
    }

    proof fn lemma_tag_precious_metal_deposits()
        ensures
            WaypointTraitSymbols::of_tag("PRECIOUS_METAL_DEPOSITS"@) == Some(WaypointTraitSymbols::PreciousMetalDeposits),
    {
        reveal_strlit("PRECIOUS_METAL_DEPOSITS");
    }

    proof fn lemma_tag_rare_metal_deposits()
        ensures
            WaypointTraitSymbols::of_tag("RARE_METAL_DEPOSITS"@) == Some(WaypointTraitSymbols::RareMetalDeposits),
    {
        reveal_strlit("RARE_METAL_DEPOSITS");
        reveal_strlit("EXPLORATION_OUTPOST");
        assert("RARE_METAL_DEPOSITS"@[0] != 'E');
    }

    proof fn lemma_tag_methane_pools()
        ensures
            WaypointTraitSymbols::of_tag("METHANE_POOLS"@) == Some(WaypointTraitSymbols::MethanePools),
    {
        reveal_strlit("METHANE_POOLS");
        reveal_strlit("MILITARY_BASE");
        assert("METHANE_POOLS"@[1] != 'I');
    }

    proof fn lemma_tag_ice_crystals()
        ensures
            WaypointTraitSymbols::of_tag("ICE_CRYSTALS"@) == Some(WaypointTraitSymbols::IceCrystals),
    {
        reveal_strlit("ICE_CRYSTALS");
        reveal_strlit("BUREAUCRATIC");
        assert("ICE_CRYSTALS"@[0] != 'B');
        reveal_strlit("BLACK_MARKET");
        assert("ICE_CRYSTALS"@[0] != 'B');
    }

    proof fn lemma_tag_explosive_gases()
        ensures
            WaypointTraitSymbols::of_tag("EXPLOSIVE_GASES"@) == Some(WaypointTraitSymbols::ExplosiveGases),
    {
        reveal_strlit("EXPLOSIVE_GASES");
        reveal_strlit("MEGA_STRUCTURES");
        assert("EXPLOSIVE_GASES"@[0] != 'M');
    }

    proof fn lemma_tag_strong_magnetosphere()
        ensures
            WaypointTraitSymbols::of_tag("STRONG_MAGNETOSPHERE"@) == Some(WaypointTraitSymbols::StrongMagnetosphere),
    {
        reveal_strlit("STRONG_MAGNETOSPHERE");
        reveal_strlit("SURVEILLANCE_OUTPOST");
        assert("STRONG_MAGNETOSPHERE"@[1] != 'U');
    }

    proof fn lemma_tag_vibrant_auroras()
        ensures
            WaypointTraitSymbols::of_tag("VIBRANT_AURORAS"@) == Some(WaypointTraitSymbols::VibrantAuroras),
    {
        reveal_strlit("VIBRANT_AURORAS");
        reveal_strlit("MEGA_STRUCTURES");
        assert("VIBRANT_AURORAS"@[0] != 'M');
        reveal_strlit("EXPLOSIVE_GASES");
        assert("VIBRANT_AURORAS"@[0] != 'E');
    }

    proof fn lemma_tag_salt_flats()
        ensures
            WaypointTraitSymbols::of_tag("SALT_FLATS"@) == Some(WaypointTraitSymbols::SaltFlats),
    {
        reveal_strlit("SALT_FLATS");
        reveal_strlit("INDUSTRIAL");
        assert("SALT_FLATS"@[0] != 'I');
    }

    proof fn lemma_tag_canyons()
        ensures
            WaypointTraitSymbols::of_tag("CANYONS"@) == Some(WaypointTraitSymbols::Canyons),
    {
        reveal_strlit("CANYONS");
        reveal_strlit("OUTPOST");
        assert("CANYONS"@[0] != 'O');
        reveal_strlit("CORRUPT");
        assert("CANYONS"@[1] != 'O');
    }

    proof fn lemma_tag_perpetual_daylight()
        ensures
            WaypointTraitSymbols::of_tag("PERPETUAL_DAYLIGHT"@) == Some(WaypointTraitSymbols::PerpetualDaylight),
    {
        reveal_strlit("PERPETUAL_DAYLIGHT");
    }

    proof fn lemma_tag_perpetual_overcast()
        ensures
            WaypointTraitSymbols::of_tag("PERPETUAL_OVERCAST"@) == Some(WaypointTraitSymbols::PerpetualOvercast),
    {
        reveal_strlit("PERPETUAL_OVERCAST");
        reveal_strlit("PERPETUAL_DAYLIGHT");
        assert("PERPETUAL_OVERCAST"@[10] != 'D');
    }

    proof fn lemma_tag_dry_seabeds()
        ensures
            WaypointTraitSymbols::of_tag("DRY_SEABEDS"@) == Some(WaypointTraitSymbols::DrySeabeds),
    {
        reveal_strlit("DRY_SEABEDS");
        reveal_strlit("MARKETPLACE");
        assert("DRY_SEABEDS"@[0] != 'M');
        reveal_strlit("OVERCROWDED");
        assert("DRY_SEABEDS"@[0] != 'O');
        reveal_strlit("TRADING_HUB");
        assert("DRY_SEABEDS"@[0] != 'T');
    }

    proof fn lemma_tag_magma_seas()
        ensures
            WaypointTraitSymbols::of_tag("MAGMA_SEAS"@) == Some(WaypointTraitSymbols::MagmaSeas),
    {
        reveal_strlit("MAGMA_SEAS");
        reveal_strlit("INDUSTRIAL");
        assert("MAGMA_SEAS"@[0] != 'I');
        reveal_strlit("SALT_FLATS");
        assert("MAGMA_SEAS"@[0] != 'S');
    }

    proof fn lemma_tag_supervolcanoes()
        ensures
            WaypointTraitSymbols::of_tag("SUPERVOLCANOES"@) == Some(WaypointTraitSymbols::Supervolcanoes),
    {
        reveal_strlit("SUPERVOLCANOES");
    }

    proof fn lemma_tag_ash_clouds()
        ensures
            WaypointTraitSymbols::of_tag("ASH_CLOUDS"@) == Some(WaypointTraitSymbols::AshClouds),
    {
        reveal_strlit("ASH_CLOUDS");
        reveal_strlit("INDUSTRIAL");
        assert("ASH_CLOUDS"@[0] != 'I');
        reveal_strlit("SALT_FLATS");
        assert("ASH_CLOUDS"@[0] != 'S');
        reveal_strlit("MAGMA_SEAS");
        assert("ASH_CLOUDS"@[0] != 'M');
    }

    proof fn lemma_tag_vast_ruins()
        ensures
            WaypointTraitSymbols::of_tag("VAST_RUINS"@) == Some(WaypointTraitSymbols::VastRuins),
    {
        reveal_strlit("VAST_RUINS");
        reveal_strlit("INDUSTRIAL");
        assert("VAST_RUINS"@[0] != 'I');
        reveal_strlit("SALT_FLATS");
        assert("VAST_RUINS"@[0] != 'S');
        reveal_strlit("MAGMA_SEAS");
        assert("VAST_RUINS"@[0] != 'M');
        reveal_strlit("ASH_CLOUDS");
        assert("VAST_RUINS"@[0] != 'A');
    }

    proof fn lemma_tag_mutated_flora()
        ensures
            WaypointTraitSymbols::of_tag("MUTATED_FLORA"@) == Some(WaypointTraitSymbols::MutatedFlora),
    {
        reveal_strlit("MUTATED_FLORA");
        reveal_strlit("MILITARY_BASE");
        assert("MUTATED_FLORA"@[1] != 'I');
        reveal_strlit("METHANE_POOLS");
        assert("MUTATED_FLORA"@[1] != 'E');
    }

    proof fn lemma_tag_terraformed()
        ensures
            WaypointTraitSymbols::of_tag("TERRAFORMED"@) == Some(WaypointTraitSymbols::Terraformed),
    {
        reveal_strlit("TERRAFORMED");
        reveal_strlit("MARKETPLACE");
        assert("TERRAFORMED"@[0] != 'M');
        reveal_strlit("OVERCROWDED");
        assert("TERRAFORMED"@[0] != 'O');
        reveal_strlit("TRADING_HUB");
        assert("TERRAFORMED"@[1] != 'R');
        reveal_strlit("DRY_SEABEDS");
        assert("TERRAFORMED"@[0] != 'D');
    }

    proof fn lemma_tag_extreme_temperatures()
        ensures
            WaypointTraitSymbols::of_tag("EXTREME_TEMPERATURES"@) == Some(WaypointTraitSymbols::ExtremeTemperatures),
    {
        reveal_strlit("EXTREME_TEMPERATURES");
        reveal_strlit("SURVEILLANCE_OUTPOST");
        assert("EXTREME_TEMPERATURES"@[0] != 'S');
        reveal_strlit("STRONG_MAGNETOSPHERE");
        assert("EXTREME_TEMPERATURES"@[0] != 'S');
    }

    proof fn lemma_tag_extreme_pressure()
        ensures
            WaypointTraitSymbols::of_tag("EXTREME_PRESSURE"@) == Some(WaypointTraitSymbols::ExtremePressure),
    {
        reveal_strlit("EXTREME_PRESSURE");
        reveal_strlit("SPRAWLING_CITIES");
        assert("EXTREME_PRESSURE"@[0] != 'S');
        reveal_strlit("MINERAL_DEPOSITS");
        assert("EXTREME_PRESSURE"@[0] != 'M');
    }

    proof fn lemma_tag_diverse_life()
        ensures
            WaypointTraitSymbols::of_tag("DIVERSE_LIFE"@) == Some(WaypointTraitSymbols::DiverseLife),
    {
        reveal_strlit("DIVERSE_LIFE");
        reveal_strlit("BUREAUCRATIC");
        assert("DIVERSE_LIFE"@[0] != 'B');
        reveal_strlit("BLACK_MARKET");
        assert("DIVERSE_LIFE"@[0] != 'B');
        reveal_strlit("ICE_CRYSTALS");
        assert("DIVERSE_LIFE"@[0] != 'I');
    }

    proof fn lemma_tag_scarce_life()
        ensures
            WaypointTraitSymbols::of_tag("SCARCE_LIFE"@) == Some(WaypointTraitSymbols::ScarceLife),
    {
        reveal_strlit("SCARCE_LIFE");
        reveal_strlit("MARKETPLACE");
        assert("SCARCE_LIFE"@[0] != 'M');
        reveal_strlit("OVERCROWDED");
        assert("SCARCE_LIFE"@[0] != 'O');
        reveal_strlit("TRADING_HUB");
        assert("SCARCE_LIFE"@[0] != 'T');
        reveal_strlit("DRY_SEABEDS");
        assert("SCARCE_LIFE"@[0] != 'D');
        reveal_strlit("TERRAFORMED");
        assert("SCARCE_LIFE"@[0] != 'T');
    }

    proof fn lemma_tag_fossils()
        ensures
            WaypointTraitSymbols::of_tag("FOSSILS"@) == Some(WaypointTraitSymbols::Fossils),
    {
        reveal_strlit("FOSSILS");
        reveal_strlit("OUTPOST");
        assert("FOSSILS"@[0] != 'O');
        reveal_strlit("CORRUPT");
        assert("FOSSILS"@[0] != 'C');
        reveal_strlit("CANYONS");
        assert("FOSSILS"@[0] != 'C');
    }

    proof fn lemma_tag_weak_gravity()
        ensures
            WaypointTraitSymbols::of_tag("WEAK_GRAVITY"@) == Some(WaypointTraitSymbols::WeakGravity),
    {
        reveal_strlit("WEAK_GRAVITY");
        reveal_strlit("BUREAUCRATIC");
        assert("WEAK_GRAVITY"@[0] != 'B');
        reveal_strlit("BLACK_MARKET");
        assert("WEAK_GRAVITY"@[0] != 'B');
        reveal_strlit("ICE_CRYSTALS");
        assert("WEAK_GRAVITY"@[0] != 'I');
        reveal_strlit("DIVERSE_LIFE");
        assert("WEAK_GRAVITY"@[0] != 'D');
    }

    proof fn lemma_tag_strong_gravity()
        ensures
            WaypointTraitSymbols::of_tag("STRONG_GRAVITY"@) == Some(WaypointTraitSymbols::StrongGravity),
    {
        reveal_strlit("STRONG_GRAVITY");
        reveal_strlit("SUPERVOLCANOES");
        assert("STRONG_GRAVITY"@[1] != 'U');
    }

    proof fn lemma_tag_crushing_gravity()
        ensures
            WaypointTraitSymbols::of_tag("CRUSHING_GRAVITY"@) == Some(WaypointTraitSymbols::CrushingGravity),
    {
        reveal_strlit("CRUSHING_GRAVITY");
        reveal_strlit("SPRAWLING_CITIES");
        assert("CRUSHING_GRAVITY"@[0] != 'S');
        reveal_strlit("MINERAL_DEPOSITS");
        assert("CRUSHING_GRAVITY"@[0] != 'M');
        reveal_strlit("EXTREME_PRESSURE");
        assert("CRUSHING_GRAVITY"@[0] != 'E');
    }

    proof fn lemma_tag_toxic_atmosphere()
        ensures
            WaypointTraitSymbols::of_tag("TOXIC_ATMOSPHERE"@) == Some(WaypointTraitSymbols::ToxicAtmosphere),
    {
        reveal_strlit("TOXIC_ATMOSPHERE");
        reveal_strlit("SPRAWLING_CITIES");
        assert("TOXIC_ATMOSPHERE"@[0] != 'S');
        reveal_strlit("MINERAL_DEPOSITS");
        assert("TOXIC_ATMOSPHERE"@[0] != 'M');
        reveal_strlit("EXTREME_PRESSURE");
        assert("TOXIC_ATMOSPHERE"@[0] != 'E');
        reveal_strlit("CRUSHING_GRAVITY");
        assert("TOXIC_ATMOSPHERE"@[0] != 'C');
    }

    proof fn lemma_tag_corrosive_atmosphere()
        ensures
            WaypointTraitSymbols::of_tag("CORROSIVE_ATMOSPHERE"@) == Some(WaypointTraitSymbols::CorrosiveAtmosphere),
    {
        reveal_strlit("CORROSIVE_ATMOSPHERE");
        reveal_strlit("SURVEILLANCE_OUTPOST");
        assert("CORROSIVE_ATMOSPHERE"@[0] != 'S');
        reveal_strlit("STRONG_MAGNETOSPHERE");
        assert("CORROSIVE_ATMOSPHERE"@[0] != 'S');
        reveal_strlit("EXTREME_TEMPERATURES");
        assert("CORROSIVE_ATMOSPHERE"@[0] != 'E');
    }

    proof fn lemma_tag_breathable_atmosphere()
        ensures
            WaypointTraitSymbols::of_tag("BREATHABLE_ATMOSPHERE"@) == Some(WaypointTraitSymbols::BreathableAtmosphere),
    {
        reveal_strlit("BREATHABLE_ATMOSPHERE");
        reveal_strlit("SCATTERED_SETTLEMENTS");
        assert("BREATHABLE_ATMOSPHERE"@[0] != 'S');
        reveal_strlit("COMMON_METAL_DEPOSITS");
        assert("BREATHABLE_ATMOSPHERE"@[0] != 'C');
    }

    proof fn lemma_tag_jovian()
        ensures
            WaypointTraitSymbols::of_tag("JOVIAN"@) == Some(WaypointTraitSymbols::Jovian),
    {
        reveal_strlit("JOVIAN");
    }

    proof fn lemma_tag_rocky()
        ensures
            WaypointTraitSymbols::of_tag("ROCKY"@) == Some(WaypointTraitSymbols::Rocky),
    {
        reveal_strlit("ROCKY");
    }

    proof fn lemma_tag_volcanic()
        ensures
            WaypointTraitSymbols::of_tag("VOLCANIC"@) == Some(WaypointTraitSymbols::Volcanic),
    {
        reveal_strlit("VOLCANIC");
        reveal_strlit("SHIPYARD");
        assert("VOLCANIC"@[0] != 'S');
    }

    proof fn lemma_tag_frozen()
        ensures
            WaypointTraitSymbols::of_tag("FROZEN"@) == Some(WaypointTraitSymbols::Frozen),
    {
        reveal_strlit("FROZEN");
        reveal_strlit("JOVIAN");
        assert("FROZEN"@[0] != 'J');
    }

    proof fn lemma_tag_swamp()
        ensures
            WaypointTraitSymbols::of_tag("SWAMP"@) == Some(WaypointTraitSymbols::Swamp),
    {
        reveal_strlit("SWAMP");
        reveal_strlit("ROCKY");
        assert("SWAMP"@[0] != 'R');
    }

    proof fn lemma_tag_barren()
        ensures
            WaypointTraitSymbols::of_tag("BARREN"@) == Some(WaypointTraitSymbols::Barren),
    {
        reveal_strlit("BARREN");
        reveal_strlit("JOVIAN");
        assert("BARREN"@[0] != 'J');
        reveal_strlit("FROZEN");
        assert("BARREN"@[0] != 'F');
    }

    proof fn lemma_tag_temperate()
        ensures
            WaypointTraitSymbols::of_tag("TEMPERATE"@) == Some(WaypointTraitSymbols::Temperate),
    {
        reveal_strlit("TEMPERATE");
        reveal_strlit("UNCHARTED");
        assert("TEMPERATE"@[0] != 'U');
        reveal_strlit("HIGH_TECH");
        assert("TEMPERATE"@[0] != 'H');
    }

    proof fn lemma_tag_jungle()
        ensures
            WaypointTraitSymbols::of_tag("JUNGLE"@) == Some(WaypointTraitSymbols::Jungle),
    {
        reveal_strlit("JUNGLE");
        reveal_strlit("JOVIAN");
        assert("JUNGLE"@[1] != 'O');
        reveal_strlit("FROZEN");
        assert("JUNGLE"@[0] != 'F');
        reveal_strlit("BARREN");
        assert("JUNGLE"@[0] != 'B');
    }

    proof fn lemma_tag_ocean()
        ensures
            WaypointTraitSymbols::of_tag("OCEAN"@) == Some(WaypointTraitSymbols::Ocean),
    {
        reveal_strlit("OCEAN");
        reveal_strlit("ROCKY");
        assert("OCEAN"@[0] != 'R');
        reveal_strlit("SWAMP");
        assert("OCEAN"@[0] != 'S');
    }

    proof fn lemma_tag_stripped()
        ensures
            WaypointTraitSymbols::of_tag("STRIPPED"@) == Some(WaypointTraitSymbols::Stripped),
    {
        reveal_strlit("STRIPPED");
        reveal_strlit("SHIPYARD");
        assert("STRIPPED"@[1] != 'H');
        reveal_strlit("VOLCANIC");
        assert("STRIPPED"@[0] != 'V');
    }

    /// Writing a value's tag and reading it back yields the value.
    pub proof fn lemma_tag_round_trip(self)
        ensures
            WaypointTraitSymbols::of_tag(self.tag_spec()) == Some(self),
    {
        match self {
            WaypointTraitSymbols::Uncharted => WaypointTraitSymbols::lemma_tag_uncharted(),
            WaypointTraitSymbols::Marketplace => WaypointTraitSymbols::lemma_tag_marketplace(),
            WaypointTraitSymbols::Shipyard => WaypointTraitSymbols::lemma_tag_shipyard(),
            WaypointTraitSymbols::Outpost => WaypointTraitSymbols::lemma_tag_outpost(),
            WaypointTraitSymbols::ScatteredSettlements => WaypointTraitSymbols::lemma_tag_scattered_settlements(),
            WaypointTraitSymbols::SprawlingCities => WaypointTraitSymbols::lemma_tag_sprawling_cities(),
            WaypointTraitSymbols::MegaStructures => WaypointTraitSymbols::lemma_tag_mega_structures(),
            WaypointTraitSymbols::Overcrowded => WaypointTraitSymbols::lemma_tag_overcrowded(),
            WaypointTraitSymbols::HighTech => WaypointTraitSymbols::lemma_tag_high_tech(),
            WaypointTraitSymbols::Corrupt => WaypointTraitSymbols::lemma_tag_corrupt(),
            WaypointTraitSymbols::Bureaucratic => WaypointTraitSymbols::lemma_tag_bureaucratic(),
            WaypointTraitSymbols::TradingHub => WaypointTraitSymbols::lemma_tag_trading_hub(),
            WaypointTraitSymbols::Industrial => WaypointTraitSymbols::lemma_tag_industrial(),
            WaypointTraitSymbols::BlackMarket => WaypointTraitSymbols::lemma_tag_black_market(),
            WaypointTraitSymbols::ResearchFacility => WaypointTraitSymbols::lemma_tag_research_facility(),
            WaypointTraitSymbols::MilitaryBase => WaypointTraitSymbols::lemma_tag_military_base(),
            WaypointTraitSymbols::SurveillanceOutpost => WaypointTraitSymbols::lemma_tag_surveillance_outpost(),
            WaypointTraitSymbols::ExplorationOutpost => WaypointTraitSymbols::lemma_tag_exploration_outpost(),
            WaypointTraitSymbols::MineralDeposits => WaypointTraitSymbols::lemma_tag_mineral_deposits(),
            WaypointTraitSymbols::CommonMetalDeposits => WaypointTraitSymbols::lemma_tag_common_metal_deposits(),
            WaypointTraitSymbols::PreciousMetalDeposits => WaypointTraitSymbols::lemma_tag_precious_metal_deposits(),
            WaypointTraitSymbols::RareMetalDeposits => WaypointTraitSymbols::lemma_tag_rare_metal_deposits(),
            WaypointTraitSymbols::MethanePools => WaypointTraitSymbols::lemma_tag_methane_pools(),
            WaypointTraitSymbols::IceCrystals => WaypointTraitSymbols::lemma_tag_ice_crystals(),
            WaypointTraitSymbols::ExplosiveGases => WaypointTraitSymbols::lemma_tag_explosive_gases(),
            WaypointTraitSymbols::StrongMagnetosphere => WaypointTraitSymbols::lemma_tag_strong_magnetosphere(),
            WaypointTraitSymbols::VibrantAuroras => WaypointTraitSymbols::lemma_tag_vibrant_auroras(),
            WaypointTraitSymbols::SaltFlats => WaypointTraitSymbols::lemma_tag_salt_flats(),
            WaypointTraitSymbols::Canyons => WaypointTraitSymbols::lemma_tag_canyons(),
            WaypointTraitSymbols::PerpetualDaylight => WaypointTraitSymbols::lemma_tag_perpetual_daylight(),
            WaypointTraitSymbols::PerpetualOvercast => WaypointTraitSymbols::lemma_tag_perpetual_overcast(),
            WaypointTraitSymbols::DrySeabeds => WaypointTraitSymbols::lemma_tag_dry_seabeds(),
            WaypointTraitSymbols::MagmaSeas => WaypointTraitSymbols::lemma_tag_magma_seas(),
            WaypointTraitSymbols::Supervolcanoes => WaypointTraitSymbols::lemma_tag_supervolcanoes(),
            WaypointTraitSymbols::AshClouds => WaypointTraitSymbols::lemma_tag_ash_clouds(),
            WaypointTraitSymbols::VastRuins => WaypointTraitSymbols::lemma_tag_vast_ruins(),
            WaypointTraitSymbols::MutatedFlora => WaypointTraitSymbols::lemma_tag_mutated_flora(),
            WaypointTraitSymbols::Terraformed => WaypointTraitSymbols::lemma_tag_terraformed(),
            WaypointTraitSymbols::ExtremeTemperatures => WaypointTraitSymbols::lemma_tag_extreme_temperatures(),
            WaypointTraitSymbols::ExtremePressure => WaypointTraitSymbols::lemma_tag_extreme_pressure(),
            WaypointTraitSymbols::DiverseLife => WaypointTraitSymbols::lemma_tag_diverse_life(),
            WaypointTraitSymbols::ScarceLife => WaypointTraitSymbols::lemma_tag_scarce_life(),
            WaypointTraitSymbols::Fossils => WaypointTraitSymbols::lemma_tag_fossils(),
            WaypointTraitSymbols::WeakGravity => WaypointTraitSymbols::lemma_tag_weak_gravity(),
            WaypointTraitSymbols::StrongGravity => WaypointTraitSymbols::lemma_tag_strong_gravity(),
            WaypointTraitSymbols::CrushingGravity => WaypointTraitSymbols::lemma_tag_crushing_gravity(),
            WaypointTraitSymbols::ToxicAtmosphere => WaypointTraitSymbols::lemma_tag_toxic_atmosphere(),
            WaypointTraitSymbols::CorrosiveAtmosphere => WaypointTraitSymbols::lemma_tag_corrosive_atmosphere(),
            WaypointTraitSymbols::BreathableAtmosphere => WaypointTraitSymbols::lemma_tag_breathable_atmosphere(),
            WaypointTraitSymbols::Jovian => WaypointTraitSymbols::lemma_tag_jovian(),
            WaypointTraitSymbols::Rocky => WaypointTraitSymbols::lemma_tag_rocky(),
            WaypointTraitSymbols::Volcanic => WaypointTraitSymbols::lemma_tag_volcanic(),
            WaypointTraitSymbols::Frozen => WaypointTraitSymbols::lemma_tag_frozen(),
            WaypointTraitSymbols::Swamp => WaypointTraitSymbols::lemma_tag_swamp(),
            WaypointTraitSymbols::Barren => WaypointTraitSymbols::lemma_tag_barren(),
            WaypointTraitSymbols::Temperate => WaypointTraitSymbols::lemma_tag_temperate(),
            WaypointTraitSymbols::Jungle => WaypointTraitSymbols::lemma_tag_jungle(),
            WaypointTraitSymbols::Ocean => WaypointTraitSymbols::lemma_tag_ocean(),
            WaypointTraitSymbols::Stripped => WaypointTraitSymbols::lemma_tag_stripped(),
        }
    }
}

/// The symbol of a waypoint in orbit around another.
#[derive(Debug)]
pub struct OrbitalSymbol {
    pub symbol: NonEmptyString,
}

/// The mathematical view of [`OrbitalSymbol`].
pub struct OrbitalSymbolV {
    pub symbol: Seq<char>,
}

impl DeepView for OrbitalSymbol {
    type V = OrbitalSymbolV;

    open spec fn deep_view(&self) -> OrbitalSymbolV {
        OrbitalSymbolV {
            symbol: self.symbol.deep_view(),
        }
    }
}

/// Every constrained leaf of the view is within its bounds.
pub open spec fn orbital_symbol_wf(v: OrbitalSymbolV) -> bool {
    v.symbol.len() > 0
}

/// The JSON shape of a view.
pub open spec fn orbital_symbol_to_jv(v: OrbitalSymbolV) -> JsonV {
    JsonV::Obj(seq![
        ("symbol"@, JsonV::Str(v.symbol)),
    ])
}

/// Extract a view from a JSON value.
pub open spec fn orbital_symbol_of_jv(j: JsonV) -> Option<OrbitalSymbolV> {
    match j {
        JsonV::Obj(es) => orbital_symbol_of_obj(es),
        _ => None,
    }
}

/// Extract a view from an object's members.
pub open spec fn orbital_symbol_of_obj(es: Seq<(Seq<char>, JsonV)>) -> Option<OrbitalSymbolV> {
    match (
        get_nes(es, "symbol"@),
    ) {
        (Some(symbol),) => Some(OrbitalSymbolV { symbol }),
        _ => None,
    }
}

/// Writing a well-formed view and reading it back yields the view.
pub proof fn lemma_orbital_symbol_round_trip(v: OrbitalSymbolV)
    requires
        orbital_symbol_wf(v),
    ensures
        orbital_symbol_of_jv(orbital_symbol_to_jv(v)) == Some(v),
{
    reveal_strlit("symbol");
    let es = orbital_symbol_to_jv(v)->Obj_0;
    assert(es.len() == 1);
    assert(es[0].0 == "symbol"@);
    lemma_obj_get_at(es, 0);
}

/// The JSON shape of a well-formed view is representable: every integer
/// in it fits.
pub proof fn lemma_orbital_symbol_to_jv_wf(v: OrbitalSymbolV)
    requires
        orbital_symbol_wf(v),
    ensures
        jv_wf(orbital_symbol_to_jv(v)),
{
    let es = orbital_symbol_to_jv(v)->Obj_0;
    assert forall|i: int| 0 <= i < es.len() implies jv_wf((#[trigger] es[i]).1) by {
        assert(jv_wf(es[0].1));
    }
}

impl OrbitalSymbol {
    /// Encode this value as a JSON object.
    pub fn to_json(&self) -> (r: Json)
        ensures
            jv(r) == orbital_symbol_to_jv(self.deep_view()),
    {
        let mut entries: Vec<(String, Json)> = Vec::new();
        entries.push((String::from_str("symbol"), nes_json(&self.symbol)));
        proof {
            lemma_entries_view(entries@);
            let ev = entries_view(entries@);
            let target = orbital_symbol_to_jv(self.deep_view())->Obj_0;
            assert(entries@.len() == 1);
            assert(target.len() == 1);
            assert(entries@[0].0@ == "symbol"@);
            assert(jv(entries@[0].1) == target[0].1);
            assert(ev[0] == target[0]);
            assert(ev =~= target);
        }
        Json::Obj(entries)
    }

    /// Decode a value; `None` exactly when the spec-level extraction
    /// fails, and every decoded value is well formed.
    pub fn from_json(j: &Json) -> (r: Option<OrbitalSymbol>)
        ensures
            match r {
                Some(v) => orbital_symbol_of_jv(jv(*j)) == Some(v.deep_view()) && orbital_symbol_wf(v.deep_view()),
                None => orbital_symbol_of_jv(jv(*j)) is None,
            },
    {
        let entries = match j {
            Json::Obj(entries) => entries,
            _ => { return None; }
        };
        proof {
            assert(*j == Json::Obj(*entries));
        }
        let symbol = match json_get_nes(entries, "symbol") { Some(v) => v, None => { return None; } };
        Some(OrbitalSymbol { symbol })
    }
}

/// The JSON array elements for a sequence of values.
pub open spec fn orbital_symbol_seq_to_jv(vs: Seq<OrbitalSymbolV>) -> Seq<JsonV>
    decreases vs.len(),
{
    if vs.len() == 0 {
        Seq::empty()
    } else {
        seq![orbital_symbol_to_jv(vs[0])] + orbital_symbol_seq_to_jv(vs.drop_first())
    }
}

/// Extract a sequence of values from JSON array elements.
pub open spec fn orbital_symbol_seq_of_jv(items: Seq<JsonV>) -> Option<Seq<OrbitalSymbolV>>
    decreases items.len(),
{
    if items.len() == 0 {
        Some(Seq::empty())
    } else {
        match (orbital_symbol_of_jv(items[0]), orbital_symbol_seq_of_jv(items.drop_first())) {
            (Some(v), Some(vs)) => Some(seq![v] + vs),
            _ => None,
        }
    }
}

/// Writing a sequence and reading it back yields the sequence.
pub proof fn lemma_orbital_symbol_seq_round_trip(vs: Seq<OrbitalSymbolV>)
    requires
        forall|i: int| 0 <= i < vs.len() ==> orbital_symbol_wf(#[trigger] vs[i]),
    ensures
        orbital_symbol_seq_of_jv(orbital_symbol_seq_to_jv(vs)) == Some(vs),
    decreases vs.len(),
{
    if vs.len() > 0 {
        lemma_orbital_symbol_round_trip(vs[0]);
        lemma_orbital_symbol_seq_round_trip(vs.drop_first());
        assert(orbital_symbol_seq_to_jv(vs).drop_first() =~= orbital_symbol_seq_to_jv(vs.drop_first()));
        assert(seq![vs[0]] + vs.drop_first() =~= vs);
    }
}

/// The JSON array of well-formed views is representable: every integer
/// in it fits.
pub proof fn lemma_orbital_symbol_seq_to_jv_wf(vs: Seq<OrbitalSymbolV>)
    requires
        forall|i: int| 0 <= i < vs.len() ==> orbital_symbol_wf(#[trigger] vs[i]),
    ensures
        forall|i: int| 0 <= i < orbital_symbol_seq_to_jv(vs).len() ==> jv_wf(
            #[trigger] orbital_symbol_seq_to_jv(vs)[i],
        ),
        jv_wf(JsonV::Arr(orbital_symbol_seq_to_jv(vs))),
    decreases vs.len(),
{
    if vs.len() > 0 {
        lemma_orbital_symbol_to_jv_wf(vs[0]);
        assert forall|i: int| 0 <= i < vs.drop_first().len() implies orbital_symbol_wf(
            #[trigger] vs.drop_first()[i],
        ) by {
            assert(vs.drop_first()[i] == vs[i + 1]);
        }
        lemma_orbital_symbol_seq_to_jv_wf(vs.drop_first());
        let ws = orbital_symbol_seq_to_jv(vs);
        let tl = orbital_symbol_seq_to_jv(vs.drop_first());
        assert(ws == seq![orbital_symbol_to_jv(vs[0])] + tl);
        assert(jv_wf(ws[0]));
        assert(jv_wf(JsonV::Arr(tl)));
        assert forall|i: int| 0 <= i < ws.len() implies jv_wf(#[trigger] ws[i]) by {
            if i > 0 {
                assert(ws[i] == tl[i - 1]);
                assert(jv_wf(tl[i - 1]));
            }
        }
    } else {
        assert(orbital_symbol_seq_to_jv(vs) =~= Seq::<JsonV>::empty());
    }
}

impl OrbitalSymbol {
    /// Encode a vector tail (from `k` on) as JSON array elements.
    pub fn vec_to_json(items: &Vec<OrbitalSymbol>, k: usize) -> (r: Vec<Json>)
        requires
            k <= items@.len(),
        ensures
            jv_seq(r@) == orbital_symbol_seq_to_jv(items.deep_view().skip(k as int)),
        decreases items@.len() - k,
    {
        let ghost dv = items.deep_view();
        if k == items.len() {
            let out: Vec<Json> = Vec::new();
            proof {
                assert(out@ =~= Seq::<Json>::empty());
                assert(jv_seq(out@) =~= Seq::<JsonV>::empty());
                assert(dv.skip(k as int) =~= Seq::<OrbitalSymbolV>::empty());
            }
            out
        } else {
            let mut rest = Self::vec_to_json(items, k + 1);
            let hd = items[k].to_json();
            let ghost restv = rest@;
            rest.insert(0, hd);
            proof {
                assert(rest@[0] == hd);
                assert(rest@.drop_first() =~= restv);
                assert(jv_seq(rest@) =~= seq![jv(hd)] + jv_seq(restv));
                assert(dv.skip(k as int)[0] == dv[k as int]);
                assert(dv.skip(k as int).drop_first() =~= dv.skip(k as int + 1));
                assert(jv_seq(rest@) =~= orbital_symbol_seq_to_jv(dv.skip(k as int)));
            }
            rest
        }
    }

    /// Encode a whole vector as a JSON array.
    pub fn vec_json(items: &Vec<OrbitalSymbol>) -> (r: Json)
        ensures
            jv(r) == JsonV::Arr(orbital_symbol_seq_to_jv(items.deep_view())),
    {
        let out = Self::vec_to_json(items, 0);
        proof {
            assert(items.deep_view().skip(0) =~= items.deep_view());
        }
        Json::Arr(out)
    }

    /// Decode a vector from JSON array elements, from `k` on.
    pub fn vec_from_json(items: &Vec<Json>, k: usize) -> (r: Option<Vec<OrbitalSymbol>>)
        requires
            k <= items@.len(),
        ensures
            match r {
                Some(vs) => orbital_symbol_seq_of_jv(jv_seq(items@).skip(k as int)) == Some(vs.deep_view())
                    && (forall|i: int| 0 <= i < vs.deep_view().len() ==> orbital_symbol_wf(#[trigger] vs.deep_view()[i])),
                None => orbital_symbol_seq_of_jv(jv_seq(items@).skip(k as int)) is None,
            },
        decreases items@.len() - k,
    {
        let ghost sv = jv_seq(items@);
        proof {
            lemma_jv_seq(items@);
        }
        if k == items.len() {
            let out: Vec<OrbitalSymbol> = Vec::new();
            proof {
                assert(sv.skip(k as int) =~= Seq::<JsonV>::empty());
                assert(out.deep_view() =~= Seq::<OrbitalSymbolV>::empty());
            }
            return Some(out);
        }
        proof {
            assert(sv.skip(k as int)[0] == sv[k as int]);
            assert(sv.skip(k as int).drop_first() =~= sv.skip(k as int + 1));
        }
        let hd = match OrbitalSymbol::from_json(&items[k]) {
            Some(v) => v,
            None => { return None; }
        };
        match Self::vec_from_json(items, k + 1) {
            Some(mut vs) => {
                let ghost older = vs.deep_view();
                vs.insert(0, hd);
                proof {
                    assert(vs.deep_view()[0] == hd.deep_view());
                    assert(vs.deep_view().drop_first() =~= older);
                    assert(vs.deep_view() =~= seq![hd.deep_view()] + older);
                }
                Some(vs)
            }
            None => None,
        }
    }

    /// Decode a vector from a JSON value that must be an array.
    pub fn vec_from_json_value(j: &Json) -> (r: Option<Vec<OrbitalSymbol>>)
        ensures
            match r {
                Some(vs) => (match jv(*j) {
                    JsonV::Arr(items) => orbital_symbol_seq_of_jv(items) == Some(vs.deep_view()),
                    _ => false,
                }) && (forall|i: int| 0 <= i < vs.deep_view().len() ==> orbital_symbol_wf(#[trigger] vs.deep_view()[i])),
                None => (match jv(*j) {
                    JsonV::Arr(items) => orbital_symbol_seq_of_jv(items) is None,
                    _ => true,
                }),
            },
    {
        let items = match j {
            Json::Arr(items) => items,
            _ => { return None; }
        };
        proof {
            assert(*j == Json::Arr(*items));
            assert(jv_seq(items@).skip(0) =~= jv_seq(items@));
        }
        Self::vec_from_json(items, 0)
    }
}

/// A faction symbol wrapped in its own object, as the wire carries it.
#[derive(Debug)]
pub struct InnerFactionSymbol {
    pub symbol: FactionSymbol,
}

/// The mathematical view of [`InnerFactionSymbol`].
pub struct InnerFactionSymbolV {
    pub symbol: FactionSymbol,
}

impl DeepView for InnerFactionSymbol {
    type V = InnerFactionSymbolV;

    open spec fn deep_view(&self) -> InnerFactionSymbolV {
        InnerFactionSymbolV {
            symbol: self.symbol,
        }
    }
}

/// Every constrained leaf of the view is within its bounds.
pub open spec fn inner_faction_symbol_wf(v: InnerFactionSymbolV) -> bool {
    true
}

/// The JSON shape of a view.
pub open spec fn inner_faction_symbol_to_jv(v: InnerFactionSymbolV) -> JsonV {
    JsonV::Obj(seq![
        ("symbol"@, JsonV::Str(v.symbol.tag_spec())),
    ])
}

/// Extract a view from a JSON value.
pub open spec fn inner_faction_symbol_of_jv(j: JsonV) -> Option<InnerFactionSymbolV> {
    match j {
        JsonV::Obj(es) => inner_faction_symbol_of_obj(es),
        _ => None,
    }
}

/// Extract a view from an object's members.
pub open spec fn inner_faction_symbol_of_obj(es: Seq<(Seq<char>, JsonV)>) -> Option<InnerFactionSymbolV> {
    match (
        (match get_str(es, "symbol"@) { Some(s) => FactionSymbol::of_tag(s), None => None }),
    ) {
        (Some(symbol),) => Some(InnerFactionSymbolV { symbol }),
        _ => None,
    }
}

/// Writing a well-formed view and reading it back yields the view.
pub proof fn lemma_inner_faction_symbol_round_trip(v: InnerFactionSymbolV)
    requires
        inner_faction_symbol_wf(v),
    ensures
        inner_faction_symbol_of_jv(inner_faction_symbol_to_jv(v)) == Some(v),
{
    reveal_strlit("symbol");
    v.symbol.lemma_tag_round_trip();
    let es = inner_faction_symbol_to_jv(v)->Obj_0;
    assert(es.len() == 1);
    assert(es[0].0 == "symbol"@);
    lemma_obj_get_at(es, 0);
}

/// The JSON shape of a well-formed view is representable: every integer
/// in it fits.
pub proof fn lemma_inner_faction_symbol_to_jv_wf(v: InnerFactionSymbolV)
    requires
        inner_faction_symbol_wf(v),
    ensures
        jv_wf(inner_faction_symbol_to_jv(v)),
{
    let es = inner_faction_symbol_to_jv(v)->Obj_0;
    assert forall|i: int| 0 <= i < es.len() implies jv_wf((#[trigger] es[i]).1) by {
        assert(jv_wf(es[0].1));
    }
}

impl InnerFactionSymbol {
    /// Encode this value as a JSON object.
    pub fn to_json(&self) -> (r: Json)
        ensures
            jv(r) == inner_faction_symbol_to_jv(self.deep_view()),
    {
        let mut entries: Vec<(String, Json)> = Vec::new();
        entries.push((String::from_str("symbol"), Json::Str(String::from_str(self.symbol.as_str()))));
        proof {
            lemma_entries_view(entries@);
            let ev = entries_view(entries@);
            let target = inner_faction_symbol_to_jv(self.deep_view())->Obj_0;
            assert(entries@.len() == 1);
            assert(target.len() == 1);
            assert(entries@[0].0@ == "symbol"@);
            assert(jv(entries@[0].1) == target[0].1);
            assert(ev[0] == target[0]);
            assert(ev =~= target);
        }
        Json::Obj(entries)
    }

    /// Decode a value; `None` exactly when the spec-level extraction
    /// fails, and every decoded value is well formed.
    pub fn from_json(j: &Json) -> (r: Option<InnerFactionSymbol>)
        ensures
            match r {
                Some(v) => inner_faction_symbol_of_jv(jv(*j)) == Some(v.deep_view()) && inner_faction_symbol_wf(v.deep_view()),
                None => inner_faction_symbol_of_jv(jv(*j)) is None,
            },
    {
        let entries = match j {
            Json::Obj(entries) => entries,
            _ => { return None; }
        };
        proof {
            assert(*j == Json::Obj(*entries));
        }
        let symbol = match json_get_str(entries, "symbol") {
            Some(s) => match FactionSymbol::from_tag(s.as_str()) {
                Some(v) => v,
                None => { return None; }
            },
            None => { return None; }
        };
        Some(InnerFactionSymbol { symbol })
    }
}

/// One trait of a waypoint.
#[derive(Debug)]
pub struct WaypointTrait {
    pub symbol: WaypointTraitSymbols,
    pub name: NonEmptyString,
    pub description: NonEmptyString,
}

/// The mathematical view of [`WaypointTrait`].
pub struct WaypointTraitV {
    pub symbol: WaypointTraitSymbols,
    pub name: Seq<char>,
    pub description: Seq<char>,
}

impl DeepView for WaypointTrait {
    type V = WaypointTraitV;

    open spec fn deep_view(&self) -> WaypointTraitV {
        WaypointTraitV {
            symbol: self.symbol,
            name: self.name.deep_view(),
            description: self.description.deep_view(),
        }
    }
}

/// Every constrained leaf of the view is within its bounds.
pub open spec fn waypoint_trait_wf(v: WaypointTraitV) -> bool {
    v.name.len() > 0
        && v.description.len() > 0
}

/// The JSON shape of a view.
pub open spec fn waypoint_trait_to_jv(v: WaypointTraitV) -> JsonV {
    JsonV::Obj(seq![
        ("symbol"@, JsonV::Str(v.symbol.tag_spec())),
        ("name"@, JsonV::Str(v.name)),
        ("description"@, JsonV::Str(v.description)),
    ])
}

/// Extract a view from a JSON value.
pub open spec fn waypoint_trait_of_jv(j: JsonV) -> Option<WaypointTraitV> {
    match j {
        JsonV::Obj(es) => waypoint_trait_of_obj(es),
        _ => None,
    }
}

/// Extract a view from an object's members.
pub open spec fn waypoint_trait_of_obj(es: Seq<(Seq<char>, JsonV)>) -> Option<WaypointTraitV> {
    match (
        (match get_str(es, "symbol"@) { Some(s) => WaypointTraitSymbols::of_tag(s), None => None }),
        get_nes(es, "name"@),
        get_nes(es, "description"@),
    ) {
        (Some(symbol), Some(name), Some(description)) => Some(WaypointTraitV { symbol, name, description }),
        _ => None,
    }
}

/// Writing a well-formed view and reading it back yields the view.
pub proof fn lemma_waypoint_trait_round_trip(v: WaypointTraitV)
    requires
        waypoint_trait_wf(v),
    ensures
        waypoint_trait_of_jv(waypoint_trait_to_jv(v)) == Some(v),
{
    reveal_strlit("symbol");
    reveal_strlit("name");
    reveal_strlit("description");
    v.symbol.lemma_tag_round_trip();
    let es = waypoint_trait_to_jv(v)->Obj_0;
    assert(es.len() == 3);
    assert(es[0].0 == "symbol"@);
    assert(es[1].0 == "name"@);
    assert(es[2].0 == "description"@);
    lemma_obj_get_at(es, 0);
    lemma_obj_get_at(es, 1);
    lemma_obj_get_at(es, 2);
}

/// The JSON shape of a well-formed view is representable: every integer
/// in it fits.
pub proof fn lemma_waypoint_trait_to_jv_wf(v: WaypointTraitV)
    requires
        waypoint_trait_wf(v),
    ensures
        jv_wf(waypoint_trait_to_jv(v)),
{
    let es = waypoint_trait_to_jv(v)->Obj_0;
    assert forall|i: int| 0 <= i < es.len() implies jv_wf((#[trigger] es[i]).1) by {
        assert(jv_wf(es[0].1));
        assert(jv_wf(es[1].1));
        assert(jv_wf(es[2].1));
    }
}

impl WaypointTrait {
    /// Encode this value as a JSON object.
    pub fn to_json(&self) -> (r: Json)
        ensures
            jv(r) == waypoint_trait_to_jv(self.deep_view()),
    {
        let mut entries: Vec<(String, Json)> = Vec::new();
        entries.push((String::from_str("symbol"), Json::Str(String::from_str(self.symbol.as_str()))));
        entries.push((String::from_str("name"), nes_json(&self.name)));
        entries.push((String::from_str("description"), nes_json(&self.description)));
        proof {
            lemma_entries_view(entries@);
            let ev = entries_view(entries@);
            let target = waypoint_trait_to_jv(self.deep_view())->Obj_0;
            assert(entries@.len() == 3);
            assert(target.len() == 3);
            assert(entries@[0].0@ == "symbol"@);
            assert(jv(entries@[0].1) == target[0].1);
            assert(ev[0] == target[0]);
            assert(entries@[1].0@ == "name"@);
            assert(jv(entries@[1].1) == target[1].1);
            assert(ev[1] == target[1]);
            assert(entries@[2].0@ == "description"@);
            assert(jv(entries@[2].1) == target[2].1);
            assert(ev[2] == target[2]);
            assert(ev =~= target);
        }
        Json::Obj(entries)
    }

    /// Decode a value; `None` exactly when the spec-level extraction
    /// fails, and every decoded value is well formed.
    pub fn from_json(j: &Json) -> (r: Option<WaypointTrait>)
        ensures
            match r {
                Some(v) => waypoint_trait_of_jv(jv(*j)) == Some(v.deep_view()) && waypoint_trait_wf(v.deep_view()),
                None => waypoint_trait_of_jv(jv(*j)) is None,
            },
    {
        let entries = match j {
            Json::Obj(entries) => entries,
            _ => { return None; }
        };
        proof {
            assert(*j == Json::Obj(*entries));
        }
        let symbol = match json_get_str(entries, "symbol") {
            Some(s) => match WaypointTraitSymbols::from_tag(s.as_str()) {
                Some(v) => v,
                None => { return None; }
            },
            None => { return None; }
        };
        let name = match json_get_nes(entries, "name") { Some(v) => v, None => { return None; } };
        let description = match json_get_nes(entries, "description") { Some(v) => v, None => { return None; } };
        Some(WaypointTrait { symbol, name, description })
    }
}

/// The JSON array elements for a sequence of values.
pub open spec fn waypoint_trait_seq_to_jv(vs: Seq<WaypointTraitV>) -> Seq<JsonV>
    decreases vs.len(),
{
    if vs.len() == 0 {
        Seq::empty()
    } else {
        seq![waypoint_trait_to_jv(vs[0])] + waypoint_trait_seq_to_jv(vs.drop_first())
    }
}

/// Extract a sequence of values from JSON array elements.
pub open spec fn waypoint_trait_seq_of_jv(items: Seq<JsonV>) -> Option<Seq<WaypointTraitV>>
    decreases items.len(),
{
    if items.len() == 0 {
        Some(Seq::empty())
    } else {
        match (waypoint_trait_of_jv(items[0]), waypoint_trait_seq_of_jv(items.drop_first())) {
            (Some(v), Some(vs)) => Some(seq![v] + vs),
            _ => None,
        }
    }
}

/// Writing a sequence and reading it back yields the sequence.
pub proof fn lemma_waypoint_trait_seq_round_trip(vs: Seq<WaypointTraitV>)
    requires
        forall|i: int| 0 <= i < vs.len() ==> waypoint_trait_wf(#[trigger] vs[i]),
    ensures
        waypoint_trait_seq_of_jv(waypoint_trait_seq_to_jv(vs)) == Some(vs),
    decreases vs.len(),
{
    if vs.len() > 0 {
        lemma_waypoint_trait_round_trip(vs[0]);
        lemma_waypoint_trait_seq_round_trip(vs.drop_first());
        assert(waypoint_trait_seq_to_jv(vs).drop_first() =~= waypoint_trait_seq_to_jv(vs.drop_first()));
        assert(seq![vs[0]] + vs.drop_first() =~= vs);
    }
}

/// The JSON array of well-formed views is representable: every integer
/// in it fits.
pub proof fn lemma_waypoint_trait_seq_to_jv_wf(vs: Seq<WaypointTraitV>)
    requires
        forall|i: int| 0 <= i < vs.len() ==> waypoint_trait_wf(#[trigger] vs[i]),
    ensures
        forall|i: int| 0 <= i < waypoint_trait_seq_to_jv(vs).len() ==> jv_wf(
            #[trigger] waypoint_trait_seq_to_jv(vs)[i],
        ),
        jv_wf(JsonV::Arr(waypoint_trait_seq_to_jv(vs))),
    decreases vs.len(),
{
    if vs.len() > 0 {
        lemma_waypoint_trait_to_jv_wf(vs[0]);
        assert forall|i: int| 0 <= i < vs.drop_first().len() implies waypoint_trait_wf(
            #[trigger] vs.drop_first()[i],
        ) by {
            assert(vs.drop_first()[i] == vs[i + 1]);
        }
        lemma_waypoint_trait_seq_to_jv_wf(vs.drop_first());
        let ws = waypoint_trait_seq_to_jv(vs);
        let tl = waypoint_trait_seq_to_jv(vs.drop_first());
        assert(ws == seq![waypoint_trait_to_jv(vs[0])] + tl);
        assert(jv_wf(ws[0]));
        assert(jv_wf(JsonV::Arr(tl)));
        assert forall|i: int| 0 <= i < ws.len() implies jv_wf(#[trigger] ws[i]) by {
            if i > 0 {
                assert(ws[i] == tl[i - 1]);
                assert(jv_wf(tl[i - 1]));
            }
        }
    } else {
        assert(waypoint_trait_seq_to_jv(vs) =~= Seq::<JsonV>::empty());
    }
}

impl WaypointTrait {
    /// Encode a vector tail (from `k` on) as JSON array elements.
    pub fn vec_to_json(items: &Vec<WaypointTrait>, k: usize) -> (r: Vec<Json>)
        requires
            k <= items@.len(),
        ensures
            jv_seq(r@) == waypoint_trait_seq_to_jv(items.deep_view().skip(k as int)),
        decreases items@.len() - k,
    {
        let ghost dv = items.deep_view();
        if k == items.len() {
            let out: Vec<Json> = Vec::new();
            proof {
                assert(out@ =~= Seq::<Json>::empty());
                assert(jv_seq(out@) =~= Seq::<JsonV>::empty());
                assert(dv.skip(k as int) =~= Seq::<WaypointTraitV>::empty());
            }
            out
        } else {
            let mut rest = Self::vec_to_json(items, k + 1);
            let hd = items[k].to_json();
            let ghost restv = rest@;
            rest.insert(0, hd);
            proof {
                assert(rest@[0] == hd);
                assert(rest@.drop_first() =~= restv);
                assert(jv_seq(rest@) =~= seq![jv(hd)] + jv_seq(restv));
                assert(dv.skip(k as int)[0] == dv[k as int]);
                assert(dv.skip(k as int).drop_first() =~= dv.skip(k as int + 1));
                assert(jv_seq(rest@) =~= waypoint_trait_seq_to_jv(dv.skip(k as int)));
            }
            rest
        }
    }

    /// Encode a whole vector as a JSON array.
    pub fn vec_json(items: &Vec<WaypointTrait>) -> (r: Json)
        ensures
            jv(r) == JsonV::Arr(waypoint_trait_seq_to_jv(items.deep_view())),
    {
        let out = Self::vec_to_json(items, 0);
        proof {
            assert(items.deep_view().skip(0) =~= items.deep_view());
        }
        Json::Arr(out)
    }

    /// Decode a vector from JSON array elements, from `k` on.
    pub fn vec_from_json(items: &Vec<Json>, k: usize) -> (r: Option<Vec<WaypointTrait>>)
        requires
            k <= items@.len(),
        ensures
            match r {
                Some(vs) => waypoint_trait_seq_of_jv(jv_seq(items@).skip(k as int)) == Some(vs.deep_view())
                    && (forall|i: int| 0 <= i < vs.deep_view().len() ==> waypoint_trait_wf(#[trigger] vs.deep_view()[i])),
                None => waypoint_trait_seq_of_jv(jv_seq(items@).skip(k as int)) is None,
            },
        decreases items@.len() - k,
    {
        let ghost sv = jv_seq(items@);
        proof {
            lemma_jv_seq(items@);
        }
        if k == items.len() {
            let out: Vec<WaypointTrait> = Vec::new();
            proof {
                assert(sv.skip(k as int) =~= Seq::<JsonV>::empty());
                assert(out.deep_view() =~= Seq::<WaypointTraitV>::empty());
            }
            return Some(out);
        }
        proof {
            assert(sv.skip(k as int)[0] == sv[k as int]);
            assert(sv.skip(k as int).drop_first() =~= sv.skip(k as int + 1));
        }
        let hd = match WaypointTrait::from_json(&items[k]) {
            Some(v) => v,
            None => { return None; }
        };
        match Self::vec_from_json(items, k + 1) {
            Some(mut vs) => {
                let ghost older = vs.deep_view();
                vs.insert(0, hd);
                proof {
                    assert(vs.deep_view()[0] == hd.deep_view());
                    assert(vs.deep_view().drop_first() =~= older);
                    assert(vs.deep_view() =~= seq![hd.deep_view()] + older);
                }
                Some(vs)
            }
            None => None,
        }
    }

    /// Decode a vector from a JSON value that must be an array.
    pub fn vec_from_json_value(j: &Json) -> (r: Option<Vec<WaypointTrait>>)
        ensures
            match r {
                Some(vs) => (match jv(*j) {
                    JsonV::Arr(items) => waypoint_trait_seq_of_jv(items) == Some(vs.deep_view()),
                    _ => false,
                }) && (forall|i: int| 0 <= i < vs.deep_view().len() ==> waypoint_trait_wf(#[trigger] vs.deep_view()[i])),
                None => (match jv(*j) {
                    JsonV::Arr(items) => waypoint_trait_seq_of_jv(items) is None,
                    _ => true,
                }),
            },
    {
        let items = match j {
            Json::Arr(items) => items,
            _ => { return None; }
        };
        proof {
            assert(*j == Json::Arr(*items));
            assert(jv_seq(items@).skip(0) =~= jv_seq(items@));
        }
        Self::vec_from_json(items, 0)
    }
}

/// Charting data of a waypoint.
#[derive(Debug)]
pub struct Chart {
    pub waypoint_symbol: Option<NonEmptyString>,
    pub submitted_by: Option<NonEmptyString>,
    pub submitted_on: NonEmptyString,
}

/// The mathematical view of [`Chart`].
pub struct ChartV {
    pub waypoint_symbol: Option<Seq<char>>,
    pub submitted_by: Option<Seq<char>>,
    pub submitted_on: Seq<char>,
}

impl DeepView for Chart {
    type V = ChartV;

    open spec fn deep_view(&self) -> ChartV {
        ChartV {
            waypoint_symbol: self.waypoint_symbol.deep_view(),
            submitted_by: self.submitted_by.deep_view(),
            submitted_on: self.submitted_on.deep_view(),
        }
    }
}

/// Every constrained leaf of the view is within its bounds.
pub open spec fn chart_wf(v: ChartV) -> bool {
    (match v.waypoint_symbol { Some(x) => x.len() > 0, None => true })
        && (match v.submitted_by { Some(x) => x.len() > 0, None => true })
        && v.submitted_on.len() > 0
}

/// The JSON shape of a view.
pub open spec fn chart_to_jv(v: ChartV) -> JsonV {
    JsonV::Obj(seq![
        ("waypointSymbol"@, (match v.waypoint_symbol { Some(x) => JsonV::Str(x), None => JsonV::Null })),
        ("submittedBy"@, (match v.submitted_by { Some(x) => JsonV::Str(x), None => JsonV::Null })),
        ("submittedOn"@, JsonV::Str(v.submitted_on)),
    ])
}

/// Extract a view from a JSON value.
pub open spec fn chart_of_jv(j: JsonV) -> Option<ChartV> {
    match j {
        JsonV::Obj(es) => chart_of_obj(es),
        _ => None,
    }
}

/// Extract a view from an object's members.
pub open spec fn chart_of_obj(es: Seq<(Seq<char>, JsonV)>) -> Option<ChartV> {
    match (
        get_opt_nes(es, "waypointSymbol"@),
        get_opt_nes(es, "submittedBy"@),
        get_nes(es, "submittedOn"@),
    ) {
        (Some(waypoint_symbol), Some(submitted_by), Some(submitted_on)) => Some(ChartV { waypoint_symbol, submitted_by, submitted_on }),
        _ => None,
    }
}

/// Writing a well-formed view and reading it back yields the view.
pub proof fn lemma_chart_round_trip(v: ChartV)
    requires
        chart_wf(v),
    ensures
        chart_of_jv(chart_to_jv(v)) == Some(v),
{
    reveal_strlit("waypointSymbol");
    reveal_strlit("submittedBy");
    reveal_strlit("submittedOn");
    let es = chart_to_jv(v)->Obj_0;
    assert(es.len() == 3);
    assert(es[0].0 == "waypointSymbol"@);
    assert(es[1].0 == "submittedBy"@);
    assert(es[2].0 == "submittedOn"@);
    assert("submittedOn"@[9] != 'B');
    assert("submittedBy"@[9] == 'B');
    lemma_obj_get_at(es, 0);
    lemma_obj_get_at(es, 1);
    lemma_obj_get_at(es, 2);
}

/// The JSON shape of a well-formed view is representable: every integer
/// in it fits.
pub proof fn lemma_chart_to_jv_wf(v: ChartV)
    requires
        chart_wf(v),
    ensures
        jv_wf(chart_to_jv(v)),
{
    let es = chart_to_jv(v)->Obj_0;
    assert forall|i: int| 0 <= i < es.len() implies jv_wf((#[trigger] es[i]).1) by {
        assert(jv_wf(es[0].1));
        assert(jv_wf(es[1].1));
        assert(jv_wf(es[2].1));
    }
}

impl Chart {
    /// Encode this value as a JSON object.
    pub fn to_json(&self) -> (r: Json)
        ensures
            jv(r) == chart_to_jv(self.deep_view()),
    {
        let mut entries: Vec<(String, Json)> = Vec::new();
        entries.push((String::from_str("waypointSymbol"), (match &self.waypoint_symbol { Some(x) => nes_json(x), None => Json::Null })));
        entries.push((String::from_str("submittedBy"), (match &self.submitted_by { Some(x) => nes_json(x), None => Json::Null })));
        entries.push((String::from_str("submittedOn"), nes_json(&self.submitted_on)));
        proof {
            lemma_entries_view(entries@);
            let ev = entries_view(entries@);
            let target = chart_to_jv(self.deep_view())->Obj_0;
            assert(entries@.len() == 3);
            assert(target.len() == 3);
            assert(entries@[0].0@ == "waypointSymbol"@);
            assert(jv(entries@[0].1) == target[0].1);
            assert(ev[0] == target[0]);
            assert(entries@[1].0@ == "submittedBy"@);
            assert(jv(entries@[1].1) == target[1].1);
            assert(ev[1] == target[1]);
            assert(entries@[2].0@ == "submittedOn"@);
            assert(jv(entries@[2].1) == target[2].1);
            assert(ev[2] == target[2]);
            assert(ev =~= target);
        }
        Json::Obj(entries)
    }

    /// Decode a value; `None` exactly when the spec-level extraction
    /// fails, and every decoded value is well formed.
    pub fn from_json(j: &Json) -> (r: Option<Chart>)
        ensures
            match r {
                Some(v) => chart_of_jv(jv(*j)) == Some(v.deep_view()) && chart_wf(v.deep_view()),
                None => chart_of_jv(jv(*j)) is None,
            },
    {
        let entries = match j {
            Json::Obj(entries) => entries,
            _ => { return None; }
        };
        proof {
            assert(*j == Json::Obj(*entries));
        }
        let waypoint_symbol = match json_get_opt_nes(entries, "waypointSymbol") { Some(v) => v, None => { return None; } };
        let submitted_by = match json_get_opt_nes(entries, "submittedBy") { Some(v) => v, None => { return None; } };
        let submitted_on = match json_get_nes(entries, "submittedOn") { Some(v) => v, None => { return None; } };
        Some(Chart { waypoint_symbol, submitted_by, submitted_on })
    }
}

/// A navigable location in a system.
#[derive(Debug)]
pub struct Waypoint {
    pub symbol: NonEmptyString,
    pub waypoint_type: WaypointType,
    pub system_symbol: NonEmptyString,
    pub x: i32,
    pub y: i32,
    pub orbitals: Vec<OrbitalSymbol>,
    pub faction: Option<InnerFactionSymbol>,
    pub traits: Vec<WaypointTrait>,
    pub chart: Option<Chart>,
}

/// The mathematical view of [`Waypoint`].
pub struct WaypointV {
    pub symbol: Seq<char>,
    pub waypoint_type: WaypointType,
    pub system_symbol: Seq<char>,
    pub x: int,
    pub y: int,
    pub orbitals: Seq<OrbitalSymbolV>,
    pub faction: Option<InnerFactionSymbolV>,
    pub traits: Seq<WaypointTraitV>,
    pub chart: Option<ChartV>,
}

impl DeepView for Waypoint {
    type V = WaypointV;

    open spec fn deep_view(&self) -> WaypointV {
        WaypointV {
            symbol: self.symbol.deep_view(),
            waypoint_type: self.waypoint_type,
            system_symbol: self.system_symbol.deep_view(),
            x: self.x as int,
            y: self.y as int,
            orbitals: self.orbitals.deep_view(),
            faction: self.faction.deep_view(),
            traits: self.traits.deep_view(),
            chart: self.chart.deep_view(),
        }
    }
}

/// Every constrained leaf of the view is within its bounds.
pub open spec fn waypoint_wf(v: WaypointV) -> bool {
    v.symbol.len() > 0
        && v.system_symbol.len() > 0
        && i32::MIN as int <= v.x && v.x <= i32::MAX as int
        && i32::MIN as int <= v.y && v.y <= i32::MAX as int
        && (forall|i: int| 0 <= i < v.orbitals.len() ==> orbital_symbol_wf((#[trigger] v.orbitals[i])))
        && (match v.faction { Some(x) => inner_faction_symbol_wf(x), None => true })
        && (forall|i: int| 0 <= i < v.traits.len() ==> waypoint_trait_wf((#[trigger] v.traits[i])))
        && (match v.chart { Some(x) => chart_wf(x), None => true })
}

/// The JSON shape of a view.
pub open spec fn waypoint_to_jv(v: WaypointV) -> JsonV {
    JsonV::Obj(seq![
        ("symbol"@, JsonV::Str(v.symbol)),
        ("type"@, JsonV::Str(v.waypoint_type.tag_spec())),
        ("systemSymbol"@, JsonV::Str(v.system_symbol)),
        ("x"@, JsonV::Int(v.x)),
        ("y"@, JsonV::Int(v.y)),
        ("orbitals"@, JsonV::Arr(orbital_symbol_seq_to_jv(v.orbitals))),
        ("faction"@, (match v.faction { Some(x) => inner_faction_symbol_to_jv(x), None => JsonV::Null })),
        ("traits"@, JsonV::Arr(waypoint_trait_seq_to_jv(v.traits))),
        ("chart"@, (match v.chart { Some(x) => chart_to_jv(x), None => JsonV::Null })),
    ])
}

/// Extract a view from a JSON value.
pub open spec fn waypoint_of_jv(j: JsonV) -> Option<WaypointV> {
    match j {
        JsonV::Obj(es) => waypoint_of_obj(es),
        _ => None,
    }
}

/// Extract a view from an object's members.
pub open spec fn waypoint_of_obj(es: Seq<(Seq<char>, JsonV)>) -> Option<WaypointV> {
    match (
        get_nes(es, "symbol"@),
        (match get_str(es, "type"@) { Some(s) => WaypointType::of_tag(s), None => None }),
        get_nes(es, "systemSymbol"@),
        get_i32(es, "x"@),
        get_i32(es, "y"@),
        (match obj_get(es, "orbitals"@) { Some(JsonV::Arr(items)) => orbital_symbol_seq_of_jv(items), _ => None }),
        (match obj_get(es, "faction"@) { None => Some(None), Some(JsonV::Null) => Some(None), Some(sj) => (match inner_faction_symbol_of_jv(sj) { Some(x) => Some(Some(x)), None => None }) }),
        (match obj_get(es, "traits"@) { Some(JsonV::Arr(items)) => waypoint_trait_seq_of_jv(items), _ => None }),
        (match obj_get(es, "chart"@) { None => Some(None), Some(JsonV::Null) => Some(None), Some(sj) => (match chart_of_jv(sj) { Some(x) => Some(Some(x)), None => None }) }),
    ) {
        (Some(symbol), Some(waypoint_type), Some(system_symbol), Some(x), Some(y), Some(orbitals), Some(faction), Some(traits), Some(chart)) => Some(WaypointV { symbol, waypoint_type, system_symbol, x, y, orbitals, faction, traits, chart }),
        _ => None,
    }
}

/// Writing a well-formed view and reading it back yields the view.
pub proof fn lemma_waypoint_round_trip(v: WaypointV)
    requires
        waypoint_wf(v),
    ensures
        waypoint_of_jv(waypoint_to_jv(v)) == Some(v),
{
    reveal_strlit("symbol");
    reveal_strlit("type");
    reveal_strlit("systemSymbol");
    reveal_strlit("x");
    reveal_strlit("y");
    reveal_strlit("orbitals");
    reveal_strlit("faction");
    reveal_strlit("traits");
    reveal_strlit("chart");
    v.waypoint_type.lemma_tag_round_trip();
    lemma_orbital_symbol_seq_round_trip(v.orbitals);
    match v.faction {
        Some(x) => { lemma_inner_faction_symbol_round_trip(x); }
        None => {}
    }
    lemma_waypoint_trait_seq_round_trip(v.traits);
    match v.chart {
        Some(x) => { lemma_chart_round_trip(x); }
        None => {}
    }
    let es = waypoint_to_jv(v)->Obj_0;
    assert(es.len() == 9);
    assert(es[0].0 == "symbol"@);
    assert(es[1].0 == "type"@);
    assert(es[2].0 == "systemSymbol"@);
    assert(es[3].0 == "x"@);
    assert(es[4].0 == "y"@);
    assert(es[5].0 == "orbitals"@);
    assert(es[6].0 == "faction"@);
    assert(es[7].0 == "traits"@);
    assert(es[8].0 == "chart"@);
    assert("y"@[0] != 'x');
    assert("x"@[0] == 'x');
    assert("traits"@[0] != 's');
    assert("symbol"@[0] == 's');
    lemma_obj_get_at(es, 0);
    lemma_obj_get_at(es, 1);
    lemma_obj_get_at(es, 2);
    lemma_obj_get_at(es, 3);
    lemma_obj_get_at(es, 4);
    lemma_obj_get_at(es, 5);
    lemma_obj_get_at(es, 6);
    lemma_obj_get_at(es, 7);
    lemma_obj_get_at(es, 8);
}

/// The JSON shape of a well-formed view is representable: every integer
/// in it fits.
pub proof fn lemma_waypoint_to_jv_wf(v: WaypointV)
    requires
        waypoint_wf(v),
    ensures
        jv_wf(waypoint_to_jv(v)),
{
    lemma_orbital_symbol_seq_to_jv_wf(v.orbitals);
    match v.faction {
        Some(x) => lemma_inner_faction_symbol_to_jv_wf(x),
        None => {}
    }
    lemma_waypoint_trait_seq_to_jv_wf(v.traits);
    match v.chart {
        Some(x) => lemma_chart_to_jv_wf(x),
        None => {}
    }
    let es = waypoint_to_jv(v)->Obj_0;
    assert forall|i: int| 0 <= i < es.len() implies jv_wf((#[trigger] es[i]).1) by {
        assert(jv_wf(es[0].1));
        assert(jv_wf(es[1].1));
        assert(jv_wf(es[2].1));
        assert(jv_wf(es[3].1));
        assert(jv_wf(es[4].1));
        assert(jv_wf(es[5].1));
        assert(jv_wf(es[6].1));
        assert(jv_wf(es[7].1));
        assert(jv_wf(es[8].1));
    }
}

impl Waypoint {
    /// Encode this value as a JSON object.
    pub fn to_json(&self) -> (r: Json)
        ensures
            jv(r) == waypoint_to_jv(self.deep_view()),
    {
        let mut entries: Vec<(String, Json)> = Vec::new();
        entries.push((String::from_str("symbol"), nes_json(&self.symbol)));
        entries.push((String::from_str("type"), Json::Str(String::from_str(self.waypoint_type.as_str()))));
        entries.push((String::from_str("systemSymbol"), nes_json(&self.system_symbol)));
        entries.push((String::from_str("x"), i32_json(self.x)));
        entries.push((String::from_str("y"), i32_json(self.y)));
        entries.push((String::from_str("orbitals"), OrbitalSymbol::vec_json(&self.orbitals)));
        entries.push((String::from_str("faction"), (match &self.faction { Some(x) => x.to_json(), None => Json::Null })));
        entries.push((String::from_str("traits"), WaypointTrait::vec_json(&self.traits)));
        entries.push((String::from_str("chart"), (match &self.chart { Some(x) => x.to_json(), None => Json::Null })));
        proof {
            lemma_entries_view(entries@);
            let ev = entries_view(entries@);
            let target = waypoint_to_jv(self.deep_view())->Obj_0;
            assert(entries@.len() == 9);
            assert(target.len() == 9);
            assert(entries@[0].0@ == "symbol"@);
            assert(jv(entries@[0].1) == target[0].1);
            assert(ev[0] == target[0]);
            assert(entries@[1].0@ == "type"@);
            assert(jv(entries@[1].1) == target[1].1);
            assert(ev[1] == target[1]);
            assert(entries@[2].0@ == "systemSymbol"@);
            assert(jv(entries@[2].1) == target[2].1);
            assert(ev[2] == target[2]);
            assert(entries@[3].0@ == "x"@);
            assert(jv(entries@[3].1) == target[3].1);
            assert(ev[3] == target[3]);
            assert(entries@[4].0@ == "y"@);
            assert(jv(entries@[4].1) == target[4].1);
            assert(ev[4] == target[4]);
            assert(entries@[5].0@ == "orbitals"@);
            assert(jv(entries@[5].1) == target[5].1);
            assert(ev[5] == target[5]);
            assert(entries@[6].0@ == "faction"@);
            assert(jv(entries@[6].1) == target[6].1);
            assert(ev[6] == target[6]);
            assert(entries@[7].0@ == "traits"@);
            assert(jv(entries@[7].1) == target[7].1);
            assert(ev[7] == target[7]);
            assert(entries@[8].0@ == "chart"@);
            assert(jv(entries@[8].1) == target[8].1);
            assert(ev[8] == target[8]);
            assert(ev =~= target);
        }
        Json::Obj(entries)
    }

    /// Decode a value; `None` exactly when the spec-level extraction
    /// fails, and every decoded value is well formed.
    pub fn from_json(j: &Json) -> (r: Option<Waypoint>)
        ensures
            match r {
                Some(v) => waypoint_of_jv(jv(*j)) == Some(v.deep_view()) && waypoint_wf(v.deep_view()),
                None => waypoint_of_jv(jv(*j)) is None,
            },
    {
        let entries = match j {
            Json::Obj(entries) => entries,
            _ => { return None; }
        };
        proof {
            assert(*j == Json::Obj(*entries));
        }
        let symbol = match json_get_nes(entries, "symbol") { Some(v) => v, None => { return None; } };
        let waypoint_type = match json_get_str(entries, "type") {
            Some(s) => match WaypointType::from_tag(s.as_str()) {
                Some(v) => v,
                None => { return None; }
            },
            None => { return None; }
        };
        let system_symbol = match json_get_nes(entries, "systemSymbol") { Some(v) => v, None => { return None; } };
        let x = match json_get_i32(entries, "x") { Some(v) => v, None => { return None; } };
        let y = match json_get_i32(entries, "y") { Some(v) => v, None => { return None; } };
        let orbitals = match json_get(entries, "orbitals") {
            Some(sj) => match OrbitalSymbol::vec_from_json_value(sj) {
                Some(v) => v,
                None => { return None; }
            },
            None => { return None; }
        };
        let faction = match json_get(entries, "faction") {
            None => None,
            Some(sj) => match sj {
                Json::Null => None,
                _ => match InnerFactionSymbol::from_json(sj) {
                    Some(v) => Some(v),
                    None => { return None; }
                },
            },
        };
        let traits = match json_get(entries, "traits") {
            Some(sj) => match WaypointTrait::vec_from_json_value(sj) {
                Some(v) => v,
                None => { return None; }
            },
            None => { return None; }
        };
        let chart = match json_get(entries, "chart") {
            None => None,
            Some(sj) => match sj {
                Json::Null => None,
                _ => match Chart::from_json(sj) {
                    Some(v) => Some(v),
                    None => { return None; }
                },
            },
        };
        Some(Waypoint { symbol, waypoint_type, system_symbol, x, y, orbitals, faction, traits, chart })
    }
}

/// The JSON array elements for a sequence of values.
pub open spec fn waypoint_seq_to_jv(vs: Seq<WaypointV>) -> Seq<JsonV>
    decreases vs.len(),
{
    if vs.len() == 0 {
        Seq::empty()
    } else {
        seq![waypoint_to_jv(vs[0])] + waypoint_seq_to_jv(vs.drop_first())
    }
}

/// Extract a sequence of values from JSON array elements.
pub open spec fn waypoint_seq_of_jv(items: Seq<JsonV>) -> Option<Seq<WaypointV>>
    decreases items.len(),
{
    if items.len() == 0 {
        Some(Seq::empty())
    } else {
        match (waypoint_of_jv(items[0]), waypoint_seq_of_jv(items.drop_first())) {
            (Some(v), Some(vs)) => Some(seq![v] + vs),
            _ => None,
        }
    }
}

/// Writing a sequence and reading it back yields the sequence.
pub proof fn lemma_waypoint_seq_round_trip(vs: Seq<WaypointV>)
    requires
        forall|i: int| 0 <= i < vs.len() ==> waypoint_wf(#[trigger] vs[i]),
    ensures
        waypoint_seq_of_jv(waypoint_seq_to_jv(vs)) == Some(vs),
    decreases vs.len(),
{
    if vs.len() > 0 {
        lemma_waypoint_round_trip(vs[0]);
        lemma_waypoint_seq_round_trip(vs.drop_first());
        assert(waypoint_seq_to_jv(vs).drop_first() =~= waypoint_seq_to_jv(vs.drop_first()));
        assert(seq![vs[0]] + vs.drop_first() =~= vs);
    }
}

/// The JSON array of well-formed views is representable: every integer
/// in it fits.
pub proof fn lemma_waypoint_seq_to_jv_wf(vs: Seq<WaypointV>)
    requires
        forall|i: int| 0 <= i < vs.len() ==> waypoint_wf(#[trigger] vs[i]),
    ensures
        forall|i: int| 0 <= i < waypoint_seq_to_jv(vs).len() ==> jv_wf(
            #[trigger] waypoint_seq_to_jv(vs)[i],
        ),
        jv_wf(JsonV::Arr(waypoint_seq_to_jv(vs))),
    decreases vs.len(),
{
    if vs.len() > 0 {
        lemma_waypoint_to_jv_wf(vs[0]);
        assert forall|i: int| 0 <= i < vs.drop_first().len() implies waypoint_wf(
            #[trigger] vs.drop_first()[i],
        ) by {
            assert(vs.drop_first()[i] == vs[i + 1]);
        }
        lemma_waypoint_seq_to_jv_wf(vs.drop_first());
        let ws = waypoint_seq_to_jv(vs);
        let tl = waypoint_seq_to_jv(vs.drop_first());
        assert(ws == seq![waypoint_to_jv(vs[0])] + tl);
        assert(jv_wf(ws[0]));
        assert(jv_wf(JsonV::Arr(tl)));
        assert forall|i: int| 0 <= i < ws.len() implies jv_wf(#[trigger] ws[i]) by {
            if i > 0 {
                assert(ws[i] == tl[i - 1]);
                assert(jv_wf(tl[i - 1]));
            }
        }
    } else {
        assert(waypoint_seq_to_jv(vs) =~= Seq::<JsonV>::empty());
    }
}

impl Waypoint {
    /// Encode a vector tail (from `k` on) as JSON array elements.
    pub fn vec_to_json(items: &Vec<Waypoint>, k: usize) -> (r: Vec<Json>)
        requires
            k <= items@.len(),
        ensures
            jv_seq(r@) == waypoint_seq_to_jv(items.deep_view().skip(k as int)),
        decreases items@.len() - k,
    {
        let ghost dv = items.deep_view();
        if k == items.len() {
            let out: Vec<Json> = Vec::new();
            proof {
                assert(out@ =~= Seq::<Json>::empty());
                assert(jv_seq(out@) =~= Seq::<JsonV>::empty());
                assert(dv.skip(k as int) =~= Seq::<WaypointV>::empty());
            }
            out
        } else {
            let mut rest = Self::vec_to_json(items, k + 1);
            let hd = items[k].to_json();
            let ghost restv = rest@;
            rest.insert(0, hd);
            proof {
                assert(rest@[0] == hd);
                assert(rest@.drop_first() =~= restv);
                assert(jv_seq(rest@) =~= seq![jv(hd)] + jv_seq(restv));
                assert(dv.skip(k as int)[0] == dv[k as int]);
                assert(dv.skip(k as int).drop_first() =~= dv.skip(k as int + 1));
                assert(jv_seq(rest@) =~= waypoint_seq_to_jv(dv.skip(k as int)));
            }
            rest
        }
    }

    /// Encode a whole vector as a JSON array.
    pub fn vec_json(items: &Vec<Waypoint>) -> (r: Json)
        ensures
            jv(r) == JsonV::Arr(waypoint_seq_to_jv(items.deep_view())),
    {
        let out = Self::vec_to_json(items, 0);
        proof {
            assert(items.deep_view().skip(0) =~= items.deep_view());
        }
        Json::Arr(out)
    }

    /// Decode a vector from JSON array elements, from `k` on.
    pub fn vec_from_json(items: &Vec<Json>, k: usize) -> (r: Option<Vec<Waypoint>>)
        requires
            k <= items@.len(),
        ensures
            match r {
                Some(vs) => waypoint_seq_of_jv(jv_seq(items@).skip(k as int)) == Some(vs.deep_view())
                    && (forall|i: int| 0 <= i < vs.deep_view().len() ==> waypoint_wf(#[trigger] vs.deep_view()[i])),
                None => waypoint_seq_of_jv(jv_seq(items@).skip(k as int)) is None,
            },
        decreases items@.len() - k,
    {
        let ghost sv = jv_seq(items@);
        proof {
            lemma_jv_seq(items@);
        }
        if k == items.len() {
            let out: Vec<Waypoint> = Vec::new();
            proof {
                assert(sv.skip(k as int) =~= Seq::<JsonV>::empty());
                assert(out.deep_view() =~= Seq::<WaypointV>::empty());
            }
            return Some(out);
        }
        proof {
            assert(sv.skip(k as int)[0] == sv[k as int]);
            assert(sv.skip(k as int).drop_first() =~= sv.skip(k as int + 1));
        }
        let hd = match Waypoint::from_json(&items[k]) {
            Some(v) => v,
            None => { return None; }
        };
        match Self::vec_from_json(items, k + 1) {
            Some(mut vs) => {
                let ghost older = vs.deep_view();
                vs.insert(0, hd);
                proof {
                    assert(vs.deep_view()[0] == hd.deep_view());
                    assert(vs.deep_view().drop_first() =~= older);
                    assert(vs.deep_view() =~= seq![hd.deep_view()] + older);
                }
                Some(vs)
            }
            None => None,
        }
    }

    /// Decode a vector from a JSON value that must be an array.
    pub fn vec_from_json_value(j: &Json) -> (r: Option<Vec<Waypoint>>)
        ensures
            match r {
                Some(vs) => (match jv(*j) {
                    JsonV::Arr(items) => waypoint_seq_of_jv(items) == Some(vs.deep_view()),
                    _ => false,
                }) && (forall|i: int| 0 <= i < vs.deep_view().len() ==> waypoint_wf(#[trigger] vs.deep_view()[i])),
                None => (match jv(*j) {
                    JsonV::Arr(items) => waypoint_seq_of_jv(items) is None,
                    _ => true,
                }),
            },
    {
        let items = match j {
            Json::Arr(items) => items,
            _ => { return None; }
        };
        proof {
            assert(*j == Json::Arr(*items));
            assert(jv_seq(items@).skip(0) =~= jv_seq(items@));
        }
        Self::vec_from_json(items, 0)
    }
}

} // verus!
