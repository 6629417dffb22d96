//! Ships and everything aboard them, shipyards, surveys, and extraction
//! results.

use vstd::prelude::*;

use crate::codec::{
    get_bool, get_i32, get_int_min, get_int_range, get_nes, get_opt_i32, get_opt_int_min, get_str,
    bool_json, bounded_json, i32_json, json_get, json_get_bool, json_get_bounded, json_get_i32,
    json_get_lower, json_get_nes, json_get_opt_i32, json_get_opt_lower, json_get_str, lower_json,
    lemma_obj_get_at, nes_json,
};
use crate::conditional_types::{BoundedInt, LowerBoundInt, NonEmptyString};
use crate::faction::FactionSymbol;
use crate::json::{
    jv_wf,
    entries_view, jv, jv_seq, lemma_entries_view, lemma_jv_seq, obj_get, str_eq, Json, JsonV,
};
use crate::waypoint::WaypointType;

verus! {

#[derive(Debug, Clone, Copy, PartialEq, Eq, Structural)]
pub enum ShipStatus {
    InTransit,
    InOrbit,
    Docked,
}

impl DeepView for ShipStatus {
    type V = ShipStatus;

    open spec fn deep_view(&self) -> ShipStatus {
        *self
    }
}

impl ShipStatus {
    /// The wire tag of this value.
    pub open spec fn tag_spec(self) -> Seq<char> {
        match self {
            ShipStatus::InTransit => "IN_TRANSIT"@,
            ShipStatus::InOrbit => "IN_ORBIT"@,
            ShipStatus::Docked => "DOCKED"@,
        }
    }

    /// The value a wire tag denotes, if any: tags are told apart by
    /// length first, then by content.
    pub open spec fn of_tag(s: Seq<char>) -> Option<ShipStatus> {
        if s.len() == 6 {
            if s == "DOCKED"@ {
                Some(ShipStatus::Docked)
            } else {
                None
            }
        } else if s.len() == 8 {
            if s == "IN_ORBIT"@ {
                Some(ShipStatus::InOrbit)
            } else {
                None
            }
        } else if s.len() == 10 {
            if s == "IN_TRANSIT"@ {
                Some(ShipStatus::InTransit)
            } else {
                None
            }
        } else {
            None
        }
    }

    /// The wire tag of this value.
    pub fn as_str(&self) -> (r: &'static str)
        ensures
            r@ == self.tag_spec(),
    {
        match self {
            ShipStatus::InTransit => "IN_TRANSIT",
            ShipStatus::InOrbit => "IN_ORBIT",
            ShipStatus::Docked => "DOCKED",
        }
    }

    /// Parse a wire tag; unknown tags are rejected.
    pub fn from_tag(s: &str) -> (r: Option<ShipStatus>)
        ensures
            r == ShipStatus::of_tag(s@),
    {
        let n = s.unicode_len();
        if n == 6 {
            if str_eq(s, "DOCKED") {
                Some(ShipStatus::Docked)
            } else {
                None
            }
        } else if n == 8 {
            if str_eq(s, "IN_ORBIT") {
                Some(ShipStatus::InOrbit)
            } else {
                None
            }
        } else if n == 10 {
            if str_eq(s, "IN_TRANSIT") {
                Some(ShipStatus::InTransit)
            } else {
                None
            }
        } else {
            None
        }
    }

    /// Writing a value's tag and reading it back yields the value.
    pub proof fn lemma_tag_round_trip(self)
        ensures
            ShipStatus::of_tag(self.tag_spec()) == Some(self),
    {
        match self {
            ShipStatus::InTransit => {
                reveal_strlit("IN_TRANSIT");
            }
            ShipStatus::InOrbit => {
                reveal_strlit("IN_ORBIT");
            }
            ShipStatus::Docked => {
                reveal_strlit("DOCKED");
            }
        }
    }
}

#[derive(Debug, Clone, Copy, PartialEq, Eq, Structural)]
pub enum FlightMode {
    Drift,
    Stealth,
    Cruise,
    Burn,
}

impl DeepView for FlightMode {
    type V = FlightMode;

    open spec fn deep_view(&self) -> FlightMode {
        *self
    }
}

impl FlightMode {
    /// The wire tag of this value.
    pub open spec fn tag_spec(self) -> Seq<char> {
        match self {
            FlightMode::Drift => "DRIFT"@,
            FlightMode::Stealth => "STEALTH"@,
            FlightMode::Cruise => "CRUISE"@,
            FlightMode::Burn => "BURN"@,
        }
    }

    /// The value a wire tag denotes, if any: tags are told apart by
    /// length first, then by content.
    pub open spec fn of_tag(s: Seq<char>) -> Option<FlightMode> {
        if s.len() == 4 {
            if s == "BURN"@ {
                Some(FlightMode::Burn)
            } else {
                None
            }
        } else if s.len() == 5 {
            if s == "DRIFT"@ {
                Some(FlightMode::Drift)
            } else {
                None
            }
        } else if s.len() == 6 {
            if s == "CRUISE"@ {
                Some(FlightMode::Cruise)
            } else {
                None
            }
        } else if s.len() == 7 {
            if s == "STEALTH"@ {
                Some(FlightMode::Stealth)
            } else {
                None
            }
        } else {
            None
        }
    }

    /// The wire tag of this value.
    pub fn as_str(&self) -> (r: &'static str)
        ensures
            r@ == self.tag_spec(),
    {
        match self {
            FlightMode::Drift => "DRIFT",
            FlightMode::Stealth => "STEALTH",
            FlightMode::Cruise => "CRUISE",
            FlightMode::Burn => "BURN",
        }
    }

    /// Parse a wire tag; unknown tags are rejected.
    pub fn from_tag(s: &str) -> (r: Option<FlightMode>)
        ensures
            r == FlightMode::of_tag(s@),
    {
        let n = s.unicode_len();
        if n == 4 {
            if str_eq(s, "BURN") {
                Some(FlightMode::Burn)
            } else {
                None
            }
        } else if n == 5 {
            if str_eq(s, "DRIFT") {
                Some(FlightMode::Drift)
            } else {
                None
            }
        } else if n == 6 {
            if str_eq(s, "CRUISE") {
                Some(FlightMode::Cruise)
            } else {
                None
            }
        } else if n == 7 {
            if str_eq(s, "STEALTH") {
                Some(FlightMode::Stealth)
            } else {
                None
            }
        } else {
            None
        }
    }

    /// Writing a value's tag and reading it back yields the value.
    pub proof fn lemma_tag_round_trip(self)
        ensures
            FlightMode::of_tag(self.tag_spec()) == Some(self),
    {
        match self {
            FlightMode::Drift => {
                reveal_strlit("DRIFT");
            }
            FlightMode::Stealth => {
                reveal_strlit("STEALTH");
            }
            FlightMode::Cruise => {
                reveal_strlit("CRUISE");
            }
            FlightMode::Burn => {
                reveal_strlit("BURN");
            }
        }
    }
}

#[derive(Debug, Clone, Copy, PartialEq, Eq, Structural)]
pub enum Rotation {
    Strict,
    Relaxed,
}

impl DeepView for Rotation {
    type V = Rotation;

    open spec fn deep_view(&self) -> Rotation {
        *self
    }
}

impl Rotation {
    /// The wire tag of this value.
    pub open spec fn tag_spec(self) -> Seq<char> {
        match self {
            Rotation::Strict => "STRICT"@,
            Rotation::Relaxed => "RELAXED"@,
        }
    }

    /// The value a wire tag denotes, if any: tags are told apart by
    /// length first, then by content.
    pub open spec fn of_tag(s: Seq<char>) -> Option<Rotation> {
        if s.len() == 6 {
            if s == "STRICT"@ {
                Some(Rotation::Strict)
            } else {
                None
            }
        } else if s.len() == 7 {
            if s == "RELAXED"@ {
                Some(Rotation::Relaxed)
            } else {
                None
            }
        } else {
            None
        }
    }

    /// The wire tag of this value.
    pub fn as_str(&self) -> (r: &'static str)
        ensures
            r@ == self.tag_spec(),
    {
        match self {
            Rotation::Strict => "STRICT",
            Rotation::Relaxed => "RELAXED",
        }
    }

    /// Parse a wire tag; unknown tags are rejected.
    pub fn from_tag(s: &str) -> (r: Option<Rotation>)
        ensures
            r == Rotation::of_tag(s@),
    {
        let n = s.unicode_len();
        if n == 6 {
            if str_eq(s, "STRICT") {
                Some(Rotation::Strict)
            } else {
                None
            }
        } else if n == 7 {
            if str_eq(s, "RELAXED") {
                Some(Rotation::Relaxed)
            } else {
                None
            }
        } else {
            None
        }
    }

    /// Writing a value's tag and reading it back yields the value.
    pub proof fn lemma_tag_round_trip(self)
        ensures
            Rotation::of_tag(self.tag_spec()) == Some(self),
    {
        match self {
            Rotation::Strict => {
                reveal_strlit("STRICT");
            }
            Rotation::Relaxed => {
                reveal_strlit("RELAXED");
            }
        }
    }
}

#[derive(Debug, Clone, Copy, PartialEq, Eq, Structural)]
pub enum FrameSymbol {
    FrameProbe,
    FrameDrone,
    FrameInterceptor,
    FrameRacer,
    FrameFighter,
    FrameFrigate,
    FrameShuttle,
    FrameExplorer,
    FrameMiner,
    FrameLightFreighter,
    FrameHeavyFreighter,
    FrameTransport,
    FrameDestroyer,
    FrameCruiser,
    FrameCarrier,
}

impl DeepView for FrameSymbol {
    type V = FrameSymbol;

    open spec fn deep_view(&self) -> FrameSymbol {
        *self
    }
}

impl FrameSymbol {
    /// The wire tag of this value.
    pub open spec fn tag_spec(self) -> Seq<char> {
        match self {
            FrameSymbol::FrameProbe => "FRAME_PROBE"@,
            FrameSymbol::FrameDrone => "FRAME_DRONE"@,
            FrameSymbol::FrameInterceptor => "FRAME_INTERCEPTOR"@,
            FrameSymbol::FrameRacer => "FRAME_RACER"@,
            FrameSymbol::FrameFighter => "FRAME_FIGHTER"@,
            FrameSymbol::FrameFrigate => "FRAME_FRIGATE"@,
            FrameSymbol::FrameShuttle => "FRAME_SHUTTLE"@,
            FrameSymbol::FrameExplorer => "FRAME_EXPLORER"@,
            FrameSymbol::FrameMiner => "FRAME_MINER"@,
            FrameSymbol::FrameLightFreighter => "FRAME_LIGHT_FREIGHTER"@,
            FrameSymbol::FrameHeavyFreighter => "FRAME_HEAVY_FREIGHTER"@,
            FrameSymbol::FrameTransport => "FRAME_TRANSPORT"@,
            FrameSymbol::FrameDestroyer => "FRAME_DESTROYER"@,
            FrameSymbol::FrameCruiser => "FRAME_CRUISER"@,
            FrameSymbol::FrameCarrier => "FRAME_CARRIER"@,
        }
    }

    /// The value a wire tag denotes, if any: tags are told apart by
    /// length first, then by content.
    pub open spec fn of_tag(s: Seq<char>) -> Option<FrameSymbol> {
        if s.len() == 11 {
            if s == "FRAME_PROBE"@ {
                Some(FrameSymbol::FrameProbe)
            } else if s == "FRAME_DRONE"@ {
                Some(FrameSymbol::FrameDrone)
            } else if s == "FRAME_RACER"@ {
                Some(FrameSymbol::FrameRacer)
            } else if s == "FRAME_MINER"@ {
                Some(FrameSymbol::FrameMiner)
            } else {
                None
            }
        } else if s.len() == 13 {
            if s == "FRAME_FIGHTER"@ {
                Some(FrameSymbol::FrameFighter)
            } else if s == "FRAME_FRIGATE"@ {
                Some(FrameSymbol::FrameFrigate)
            } else if s == "FRAME_SHUTTLE"@ {
                Some(FrameSymbol::FrameShuttle)
            } else if s == "FRAME_CRUISER"@ {
                Some(FrameSymbol::FrameCruiser)
            } else if s == "FRAME_CARRIER"@ {
                Some(FrameSymbol::FrameCarrier)
            } else {
                None
            }
        } else if s.len() == 14 {
            if s == "FRAME_EXPLORER"@ {
                Some(FrameSymbol::FrameExplorer)
            } else {
                None
            }
        } else if s.len() == 15 {
            if s == "FRAME_TRANSPORT"@ {
                Some(FrameSymbol::FrameTransport)
            } else if s == "FRAME_DESTROYER"@ {
                Some(FrameSymbol::FrameDestroyer)
            } else {
                None
            }
        } else if s.len() == 17 {
            if s == "FRAME_INTERCEPTOR"@ {
                Some(FrameSymbol::FrameInterceptor)
            } else {
                None
            }
        } else if s.len() == 21 {
            if s == "FRAME_LIGHT_FREIGHTER"@ {
                Some(FrameSymbol::FrameLightFreighter)
            } else if s == "FRAME_HEAVY_FREIGHTER"@ {
                Some(FrameSymbol::FrameHeavyFreighter)
            } else {
                None
            }
        } else {
            None
        }
    }

    /// The wire tag of this value.
    pub fn as_str(&self) -> (r: &'static str)
        ensures
            r@ == self.tag_spec(),
    {
        match self {
            FrameSymbol::FrameProbe => "FRAME_PROBE",
            FrameSymbol::FrameDrone => "FRAME_DRONE",
            FrameSymbol::FrameInterceptor => "FRAME_INTERCEPTOR",
            FrameSymbol::FrameRacer => "FRAME_RACER",
            FrameSymbol::FrameFighter => "FRAME_FIGHTER",
            FrameSymbol::FrameFrigate => "FRAME_FRIGATE",
            FrameSymbol::FrameShuttle => "FRAME_SHUTTLE",
            FrameSymbol::FrameExplorer => "FRAME_EXPLORER",
            FrameSymbol::FrameMiner => "FRAME_MINER",
            FrameSymbol::FrameLightFreighter => "FRAME_LIGHT_FREIGHTER",
            FrameSymbol::FrameHeavyFreighter => "FRAME_HEAVY_FREIGHTER",
            FrameSymbol::FrameTransport => "FRAME_TRANSPORT",
            FrameSymbol::FrameDestroyer => "FRAME_DESTROYER",
            FrameSymbol::FrameCruiser => "FRAME_CRUISER",
            FrameSymbol::FrameCarrier => "FRAME_CARRIER",
        }
    }

    /// Parse a wire tag; unknown tags are rejected.
    pub fn from_tag(s: &str) -> (r: Option<FrameSymbol>)
        ensures
            r == FrameSymbol::of_tag(s@),
    {
        let n = s.unicode_len();
        if n == 11 {
            if str_eq(s, "FRAME_PROBE") {
                Some(FrameSymbol::FrameProbe)
            } else if str_eq(s, "FRAME_DRONE") {
                Some(FrameSymbol::FrameDrone)
            } else if str_eq(s, "FRAME_RACER") {
                Some(FrameSymbol::FrameRacer)
            } else if str_eq(s, "FRAME_MINER") {
                Some(FrameSymbol::FrameMiner)
            } else {
                None
            }
        } else if n == 13 {
            if str_eq(s, "FRAME_FIGHTER") {
                Some(FrameSymbol::FrameFighter)
            } else if str_eq(s, "FRAME_FRIGATE") {
                Some(FrameSymbol::FrameFrigate)
            } else if str_eq(s, "FRAME_SHUTTLE") {
                Some(FrameSymbol::FrameShuttle)
            } else if str_eq(s, "FRAME_CRUISER") {
                Some(FrameSymbol::FrameCruiser)
            } else if str_eq(s, "FRAME_CARRIER") {
                Some(FrameSymbol::FrameCarrier)
            } else {
                None
            }
        } else if n == 14 {
            if str_eq(s, "FRAME_EXPLORER") {
                Some(FrameSymbol::FrameExplorer)
            } else {
                None
            }
        } else if n == 15 {
            if str_eq(s, "FRAME_TRANSPORT") {
                Some(FrameSymbol::FrameTransport)
            } else if str_eq(s, "FRAME_DESTROYER") {
                Some(FrameSymbol::FrameDestroyer)
            } else {
                None
            }
        } else if n == 17 {
            if str_eq(s, "FRAME_INTERCEPTOR") {
                Some(FrameSymbol::FrameInterceptor)
            } else {
                None
            }
        } else if n == 21 {
            if str_eq(s, "FRAME_LIGHT_FREIGHTER") {
                Some(FrameSymbol::FrameLightFreighter)
            } else if str_eq(s, "FRAME_HEAVY_FREIGHTER") {
                Some(FrameSymbol::FrameHeavyFreighter)
            } else {
                None
            }
        } else {
            None
        }
    }

    proof fn lemma_tag_frame_probe()
        ensures
            FrameSymbol::of_tag("FRAME_PROBE"@) == Some(FrameSymbol::FrameProbe),
    {
        reveal_strlit("FRAME_PROBE");
    }

    proof fn lemma_tag_frame_drone()
        ensures
            FrameSymbol::of_tag("FRAME_DRONE"@) == Some(FrameSymbol::FrameDrone),
    {
        reveal_strlit("FRAME_DRONE");
        reveal_strlit("FRAME_PROBE");
        assert("FRAME_DRONE"@[6] != 'P');
    }

    proof fn lemma_tag_frame_interceptor()
        ensures
            FrameSymbol::of_tag("FRAME_INTERCEPTOR"@) == Some(FrameSymbol::FrameInterceptor),
    {
        reveal_strlit("FRAME_INTERCEPTOR");
    }

    proof fn lemma_tag_frame_racer()
        ensures
            FrameSymbol::of_tag("FRAME_RACER"@) == Some(FrameSymbol::FrameRacer),
    {
        reveal_strlit("FRAME_RACER");
        reveal_strlit("FRAME_PROBE");
        assert("FRAME_RACER"@[6] != 'P');
        reveal_strlit("FRAME_DRONE");
        assert("FRAME_RACER"@[6] != 'D');
    }

    proof fn lemma_tag_frame_fighter()
        ensures
            FrameSymbol::of_tag("FRAME_FIGHTER"@) == Some(FrameSymbol::FrameFighter),
    {
        reveal_strlit("FRAME_FIGHTER");
    }

    proof fn lemma_tag_frame_frigate()
        ensures
            FrameSymbol::of_tag("FRAME_FRIGATE"@) == Some(FrameSymbol::FrameFrigate),
    {
        reveal_strlit("FRAME_FRIGATE");
        reveal_strlit("FRAME_FIGHTER");
        assert("FRAME_FRIGATE"@[7] != 'I');
    }

    proof fn lemma_tag_frame_shuttle()
        ensures
            FrameSymbol::of_tag("FRAME_SHUTTLE"@) == Some(FrameSymbol::FrameShuttle),
    {
        reveal_strlit("FRAME_SHUTTLE");
        reveal_strlit("FRAME_FIGHTER");
        assert("FRAME_SHUTTLE"@[6] != 'F');
        reveal_strlit("FRAME_FRIGATE");
        assert("FRAME_SHUTTLE"@[6] != 'F');
    }

    proof fn lemma_tag_frame_explorer()
        ensures
            FrameSymbol::of_tag("FRAME_EXPLORER"@) == Some(FrameSymbol::FrameExplorer),
    {
        reveal_strlit("FRAME_EXPLORER");
    }

    proof fn lemma_tag_frame_miner()
        ensures
            FrameSymbol::of_tag("FRAME_MINER"@) == Some(FrameSymbol::FrameMiner),
    {
        reveal_strlit("FRAME_MINER");
        reveal_strlit("FRAME_PROBE");
        assert("FRAME_MINER"@[6] != 'P');
        reveal_strlit("FRAME_DRONE");
        assert("FRAME_MINER"@[6] != 'D');
        reveal_strlit("FRAME_RACER");
        assert("FRAME_MINER"@[6] != 'R');
    }

    proof fn lemma_tag_frame_light_freighter()
        ensures
            FrameSymbol::of_tag("FRAME_LIGHT_FREIGHTER"@) == Some(FrameSymbol::FrameLightFreighter),
    {
        reveal_strlit("FRAME_LIGHT_FREIGHTER");
    }

    proof fn lemma_tag_frame_heavy_freighter()
        ensures
            FrameSymbol::of_tag("FRAME_HEAVY_FREIGHTER"@) == Some(FrameSymbol::FrameHeavyFreighter),
    {
        reveal_strlit("FRAME_HEAVY_FREIGHTER");
        reveal_strlit("FRAME_LIGHT_FREIGHTER");
        assert("FRAME_HEAVY_FREIGHTER"@[6] != 'L');
    }

    proof fn lemma_tag_frame_transport()
        ensures
            FrameSymbol::of_tag("FRAME_TRANSPORT"@) == Some(FrameSymbol::FrameTransport),
    {
        reveal_strlit("FRAME_TRANSPORT");
    }

    proof fn lemma_tag_frame_destroyer()
        ensures
            FrameSymbol::of_tag("FRAME_DESTROYER"@) == Some(FrameSymbol::FrameDestroyer),
    {
        reveal_strlit("FRAME_DESTROYER");
        reveal_strlit("FRAME_TRANSPORT");
        assert("FRAME_DESTROYER"@[6] != 'T');
    }

    proof fn lemma_tag_frame_cruiser()
        ensures
            FrameSymbol::of_tag("FRAME_CRUISER"@) == Some(FrameSymbol::FrameCruiser),
    {
        reveal_strlit("FRAME_CRUISER");
        reveal_strlit("FRAME_FIGHTER");
        assert("FRAME_CRUISER"@[6] != 'F');
        reveal_strlit("FRAME_FRIGATE");
        assert("FRAME_CRUISER"@[6] != 'F');
        reveal_strlit("FRAME_SHUTTLE");
        assert("FRAME_CRUISER"@[6] != 'S');
    }

    proof fn lemma_tag_frame_carrier()
        ensures
            FrameSymbol::of_tag("FRAME_CARRIER"@) == Some(FrameSymbol::FrameCarrier),
    {
        reveal_strlit("FRAME_CARRIER");
        reveal_strlit("FRAME_FIGHTER");
        assert("FRAME_CARRIER"@[6] != 'F');
        reveal_strlit("FRAME_FRIGATE");
        assert("FRAME_CARRIER"@[6] != 'F');
        reveal_strlit("FRAME_SHUTTLE");
        assert("FRAME_CARRIER"@[6] != 'S');
        reveal_strlit("FRAME_CRUISER");
        assert("FRAME_CARRIER"@[7] != 'R');
    }

    /// Writing a value's tag and reading it back yields the value.
    pub proof fn lemma_tag_round_trip(self)
        ensures
            FrameSymbol::of_tag(self.tag_spec()) == Some(self),
    {
        match self {
            FrameSymbol::FrameProbe => FrameSymbol::lemma_tag_frame_probe(),
            FrameSymbol::FrameDrone => FrameSymbol::lemma_tag_frame_drone(),
            FrameSymbol::FrameInterceptor => FrameSymbol::lemma_tag_frame_interceptor(),
            FrameSymbol::FrameRacer => FrameSymbol::lemma_tag_frame_racer(),
            FrameSymbol::FrameFighter => FrameSymbol::lemma_tag_frame_fighter(),
            FrameSymbol::FrameFrigate => FrameSymbol::lemma_tag_frame_frigate(),
            FrameSymbol::FrameShuttle => FrameSymbol::lemma_tag_frame_shuttle(),
            FrameSymbol::FrameExplorer => FrameSymbol::lemma_tag_frame_explorer(),
            FrameSymbol::FrameMiner => FrameSymbol::lemma_tag_frame_miner(),
            FrameSymbol::FrameLightFreighter => FrameSymbol::lemma_tag_frame_light_freighter(),
            FrameSymbol::FrameHeavyFreighter => FrameSymbol::lemma_tag_frame_heavy_freighter(),
            FrameSymbol::FrameTransport => FrameSymbol::lemma_tag_frame_transport(),
            FrameSymbol::FrameDestroyer => FrameSymbol::lemma_tag_frame_destroyer(),
            FrameSymbol::FrameCruiser => FrameSymbol::lemma_tag_frame_cruiser(),
            FrameSymbol::FrameCarrier => FrameSymbol::lemma_tag_frame_carrier(),
        }
    }
}

#[derive(Debug, Clone, Copy, PartialEq, Eq, Structural)]
pub enum ReactorSymbol {
    ReactorSolarI,
    ReactorFusionI,
    ReactorFissionI,
    ReactorChemicalI,
    ReactorAntimatterI,
}

impl DeepView for ReactorSymbol {
    type V = ReactorSymbol;

    open spec fn deep_view(&self) -> ReactorSymbol {
        *self
    }
}

impl ReactorSymbol {
    /// The wire tag of this value.
    pub open spec fn tag_spec(self) -> Seq<char> {
        match self {
            ReactorSymbol::ReactorSolarI => "REACTOR_SOLAR_I"@,
            ReactorSymbol::ReactorFusionI => "REACTOR_FUSION_I"@,
            ReactorSymbol::ReactorFissionI => "REACTOR_FISSION_I"@,
            ReactorSymbol::ReactorChemicalI => "REACTOR_CHEMICAL_I"@,
            ReactorSymbol::ReactorAntimatterI => "REACTOR_ANTIMATTER_I"@,
        }
    }

    /// The value a wire tag denotes, if any: tags are told apart by
    /// length first, then by content.
    pub open spec fn of_tag(s: Seq<char>) -> Option<ReactorSymbol> {
        if s.len() == 15 {
            if s == "REACTOR_SOLAR_I"@ {
                Some(ReactorSymbol::ReactorSolarI)
            } else {
                None
            }
        } else if s.len() == 16 {
            if s == "REACTOR_FUSION_I"@ {
                Some(ReactorSymbol::ReactorFusionI)
            } else {
                None
            }
        } else if s.len() == 17 {
            if s == "REACTOR_FISSION_I"@ {
                Some(ReactorSymbol::ReactorFissionI)
            } else {
                None
            }
        } else if s.len() == 18 {
            if s == "REACTOR_CHEMICAL_I"@ {
                Some(ReactorSymbol::ReactorChemicalI)
            } else {
                None
            }
        } else if s.len() == 20 {
            if s == "REACTOR_ANTIMATTER_I"@ {
                Some(ReactorSymbol::ReactorAntimatterI)
            } else {
                None
            }
        } else {
            None
        }
    }

    /// The wire tag of this value.
    pub fn as_str(&self) -> (r: &'static str)
        ensures
            r@ == self.tag_spec(),
    {
        match self {
            ReactorSymbol::ReactorSolarI => "REACTOR_SOLAR_I",
            ReactorSymbol::ReactorFusionI => "REACTOR_FUSION_I",
            ReactorSymbol::ReactorFissionI => "REACTOR_FISSION_I",
            ReactorSymbol::ReactorChemicalI => "REACTOR_CHEMICAL_I",
            ReactorSymbol::ReactorAntimatterI => "REACTOR_ANTIMATTER_I",
        }
    }

    /// Parse a wire tag; unknown tags are rejected.
    pub fn from_tag(s: &str) -> (r: Option<ReactorSymbol>)
        ensures
            r == ReactorSymbol::of_tag(s@),
    {
        let n = s.unicode_len();
        if n == 15 {
            if str_eq(s, "REACTOR_SOLAR_I") {
                Some(ReactorSymbol::ReactorSolarI)
            } else {
                None
            }
        } else if n == 16 {
            if str_eq(s, "REACTOR_FUSION_I") {
                Some(ReactorSymbol::ReactorFusionI)
            } else {
                None
            }
        } else if n == 17 {
            if str_eq(s, "REACTOR_FISSION_I") {
                Some(ReactorSymbol::ReactorFissionI)
            } else {
                None
            }
        } else if n == 18 {
            if str_eq(s, "REACTOR_CHEMICAL_I") {
                Some(ReactorSymbol::ReactorChemicalI)
            } else {
                None
            }
        } else if n == 20 {
            if str_eq(s, "REACTOR_ANTIMATTER_I") {
                Some(ReactorSymbol::ReactorAntimatterI)
            } else {
                None
            }
        } else {
            None
        }
    }

    /// Writing a value's tag and reading it back yields the value.
    pub proof fn lemma_tag_round_trip(self)
        ensures
            ReactorSymbol::of_tag(self.tag_spec()) == Some(self),
    {
        match self {
            ReactorSymbol::ReactorSolarI => {
                reveal_strlit("REACTOR_SOLAR_I");
            }
            ReactorSymbol::ReactorFusionI => {
                reveal_strlit("REACTOR_FUSION_I");
            }
            ReactorSymbol::ReactorFissionI => {
                reveal_strlit("REACTOR_FISSION_I");
            }
            ReactorSymbol::ReactorChemicalI => {
                reveal_strlit("REACTOR_CHEMICAL_I");
            }
            ReactorSymbol::ReactorAntimatterI => {
                reveal_strlit("REACTOR_ANTIMATTER_I");
            }
        }
    }
}

#[derive(Debug, Clone, Copy, PartialEq, Eq, Structural)]
pub enum EngineSymbol {
    EngineImpulseDriveI,
    EngineIonDriveI,
    EngineIonDriveII,
    EngineHyperDriveI,
}

impl DeepView for EngineSymbol {
    type V = EngineSymbol;

    open spec fn deep_view(&self) -> EngineSymbol {
        *self
    }
}

impl EngineSymbol {
    /// The wire tag of this value.
    pub open spec fn tag_spec(self) -> Seq<char> {
        match self {
            EngineSymbol::EngineImpulseDriveI => "ENGINE_IMPULSE_DRIVE_I"@,
            EngineSymbol::EngineIonDriveI => "ENGINE_ION_DRIVE_I"@,
            EngineSymbol::EngineIonDriveII => "ENGINE_ION_DRIVE_II"@,
            EngineSymbol::EngineHyperDriveI => "ENGINE_HYPER_DRIVE_I"@,
        }
    }

    /// The value a wire tag denotes, if any: tags are told apart by
    /// length first, then by content.
    pub open spec fn of_tag(s: Seq<char>) -> Option<EngineSymbol> {
        if s.len() == 18 {
            if s == "ENGINE_ION_DRIVE_I"@ {
                Some(EngineSymbol::EngineIonDriveI)
            } else {
                None
            }
        } else if s.len() == 19 {
            if s == "ENGINE_ION_DRIVE_II"@ {
                Some(EngineSymbol::EngineIonDriveII)
            } else {
                None
            }
        } else if s.len() == 20 {
            if s == "ENGINE_HYPER_DRIVE_I"@ {
                Some(EngineSymbol::EngineHyperDriveI)
            } else {
                None
            }
        } else if s.len() == 22 {
            if s == "ENGINE_IMPULSE_DRIVE_I"@ {
                Some(EngineSymbol::EngineImpulseDriveI)
            } else {
                None
            }
        } else {
            None
        }
    }

    /// The wire tag of this value.
    pub fn as_str(&self) -> (r: &'static str)
        ensures
            r@ == self.tag_spec(),
    {
        match self {
            EngineSymbol::EngineImpulseDriveI => "ENGINE_IMPULSE_DRIVE_I",
            EngineSymbol::EngineIonDriveI => "ENGINE_ION_DRIVE_I",
            EngineSymbol::EngineIonDriveII => "ENGINE_ION_DRIVE_II",
            EngineSymbol::EngineHyperDriveI => "ENGINE_HYPER_DRIVE_I",
        }
    }

    /// Parse a wire tag; unknown tags are rejected.
    pub fn from_tag(s: &str) -> (r: Option<EngineSymbol>)
        ensures
            r == EngineSymbol::of_tag(s@),
    {
        let n = s.unicode_len();
        if n == 18 {
            if str_eq(s, "ENGINE_ION_DRIVE_I") {
                Some(EngineSymbol::EngineIonDriveI)
            } else {
                None
            }
        } else if n == 19 {
            if str_eq(s, "ENGINE_ION_DRIVE_II") {
                Some(EngineSymbol::EngineIonDriveII)
            } else {
                None
            }
        } else if n == 20 {
            if str_eq(s, "ENGINE_HYPER_DRIVE_I") {
                Some(EngineSymbol::EngineHyperDriveI)
            } else {
                None
            }
        } else if n == 22 {
            if str_eq(s, "ENGINE_IMPULSE_DRIVE_I") {
                Some(EngineSymbol::EngineImpulseDriveI)
            } else {
                None
            }
        } else {
            None
        }
    }

    /// Writing a value's tag and reading it back yields the value.
    pub proof fn lemma_tag_round_trip(self)
        ensures
            EngineSymbol::of_tag(self.tag_spec()) == Some(self),
    {
        match self {
            EngineSymbol::EngineImpulseDriveI => {
                reveal_strlit("ENGINE_IMPULSE_DRIVE_I");
            }
            EngineSymbol::EngineIonDriveI => {
                reveal_strlit("ENGINE_ION_DRIVE_I");
            }
            EngineSymbol::EngineIonDriveII => {
                reveal_strlit("ENGINE_ION_DRIVE_II");
            }
            EngineSymbol::EngineHyperDriveI => {
                reveal_strlit("ENGINE_HYPER_DRIVE_I");
            }
        }
    }
}

#[derive(Debug, Clone, Copy, PartialEq, Eq, Structural)]
pub enum ModuleSymbol {
    ModuleMineralProcessorI,
    ModuleCargoHoldI,
    ModuleCrewQuartersI,
    ModuleEnvoyQuartersI,
    ModulePassengerCabinI,
    ModuleMicroRefineryI,
    ModuleOreRefineryI,
    ModuleFuelRefineryI,
    ModuleScienceLabI,
    ModuleJumpDriveI,
    ModuleJumpDriveII,
    ModuleJumpDriveIII,
    ModuleWarpDriveI,
    ModuleWarpDriveII,
    ModuleWarpDriveIII,
    ModuleShieldGeneratorI,
    ModuleShieldGeneratorII,
}

impl DeepView for ModuleSymbol {
    type V = ModuleSymbol;

    open spec fn deep_view(&self) -> ModuleSymbol {
        *self
    }
}

impl ModuleSymbol {
    /// The wire tag of this value.
    pub open spec fn tag_spec(self) -> Seq<char> {
        match self {
            ModuleSymbol::ModuleMineralProcessorI => "MODULE_MINERAL_PROCESSOR_I"@,
            ModuleSymbol::ModuleCargoHoldI => "MODULE_CARGO_HOLD_I"@,
            ModuleSymbol::ModuleCrewQuartersI => "MODULE_CREW_QUARTERS_I"@,
            ModuleSymbol::ModuleEnvoyQuartersI => "MODULE_ENVOY_QUARTERS_I"@,
            ModuleSymbol::ModulePassengerCabinI => "MODULE_PASSENGER_CABIN_I"@,
            ModuleSymbol::ModuleMicroRefineryI => "MODULE_MICRO_REFINERY_I"@,
            ModuleSymbol::ModuleOreRefineryI => "MODULE_ORE_REFINERY_I"@,
            ModuleSymbol::ModuleFuelRefineryI => "MODULE_FUEL_REFINERY_I"@,
            ModuleSymbol::ModuleScienceLabI => "MODULE_SCIENCE_LAB_I"@,
            ModuleSymbol::ModuleJumpDriveI => "MODULE_JUMP_DRIVE_I"@,
            ModuleSymbol::ModuleJumpDriveII => "MODULE_JUMP_DRIVE_II"@,
            ModuleSymbol::ModuleJumpDriveIII => "MODULE_JUMP_DRIVE_III"@,
            ModuleSymbol::ModuleWarpDriveI => "MODULE_WARP_DRIVE_I"@,
            ModuleSymbol::ModuleWarpDriveII => "MODULE_WARP_DRIVE_II"@,
            ModuleSymbol::ModuleWarpDriveIII => "MODULE_WARP_DRIVE_III"@,
            ModuleSymbol::ModuleShieldGeneratorI => "MODULE_SHIELD_GENERATOR_I"@,
            ModuleSymbol::ModuleShieldGeneratorII => "MODULE_SHIELD_GENERATOR_II"@,
        }
    }

    /// The value a wire tag denotes, if any: tags are told apart by
    /// length first, then by content.
    pub open spec fn of_tag(s: Seq<char>) -> Option<ModuleSymbol> {
        if s.len() == 19 {
            if s == "MODULE_CARGO_HOLD_I"@ {
                Some(ModuleSymbol::ModuleCargoHoldI)
            } else if s == "MODULE_JUMP_DRIVE_I"@ {
                Some(ModuleSymbol::ModuleJumpDriveI)
            } else if s == "MODULE_WARP_DRIVE_I"@ {
                Some(ModuleSymbol::ModuleWarpDriveI)
            } else {
                None
            }
        } else if s.len() == 20 {
            if s == "MODULE_SCIENCE_LAB_I"@ {
                Some(ModuleSymbol::ModuleScienceLabI)
            } else if s == "MODULE_JUMP_DRIVE_II"@ {
                Some(ModuleSymbol::ModuleJumpDriveII)
            } else if s == "MODULE_WARP_DRIVE_II"@ {
                Some(ModuleSymbol::ModuleWarpDriveII)
            } else {
                None
            }
        } else if s.len() == 21 {
            if s == "MODULE_ORE_REFINERY_I"@ {
                Some(ModuleSymbol::ModuleOreRefineryI)
            } else if s == "MODULE_JUMP_DRIVE_III"@ {
                Some(ModuleSymbol::ModuleJumpDriveIII)
            } else if s == "MODULE_WARP_DRIVE_III"@ {
                Some(ModuleSymbol::ModuleWarpDriveIII)
            } else {
                None
            }
        } else if s.len() == 22 {
            if s == "MODULE_CREW_QUARTERS_I"@ {
                Some(ModuleSymbol::ModuleCrewQuartersI)
            } else if s == "MODULE_FUEL_REFINERY_I"@ {
                Some(ModuleSymbol::ModuleFuelRefineryI)
            } else {
                None
            }
        } else if s.len() == 23 {
            if s == "MODULE_ENVOY_QUARTERS_I"@ {
                Some(ModuleSymbol::ModuleEnvoyQuartersI)
            } else if s == "MODULE_MICRO_REFINERY_I"@ {
                Some(ModuleSymbol::ModuleMicroRefineryI)
            } else {
                None
            }
        } else if s.len() == 24 {
            if s == "MODULE_PASSENGER_CABIN_I"@ {
                Some(ModuleSymbol::ModulePassengerCabinI)
            } else {
                None
            }
        } else if s.len() == 25 {
            if s == "MODULE_SHIELD_GENERATOR_I"@ {
                Some(ModuleSymbol::ModuleShieldGeneratorI)
            } else {
                None
            }
        } else if s.len() == 26 {
            if s == "MODULE_MINERAL_PROCESSOR_I"@ {
                Some(ModuleSymbol::ModuleMineralProcessorI)
            } else if s == "MODULE_SHIELD_GENERATOR_II"@ {
                Some(ModuleSymbol::ModuleShieldGeneratorII)
            } else {
                None
            }
        } else {
            None
        }
    }

    /// The wire tag of this value.
    pub fn as_str(&self) -> (r: &'static str)
        ensures
            r@ == self.tag_spec(),
    {
        match self {
            ModuleSymbol::ModuleMineralProcessorI => "MODULE_MINERAL_PROCESSOR_I",
            ModuleSymbol::ModuleCargoHoldI => "MODULE_CARGO_HOLD_I",
            ModuleSymbol::ModuleCrewQuartersI => "MODULE_CREW_QUARTERS_I",
            ModuleSymbol::ModuleEnvoyQuartersI => "MODULE_ENVOY_QUARTERS_I",
            ModuleSymbol::ModulePassengerCabinI => "MODULE_PASSENGER_CABIN_I",
            ModuleSymbol::ModuleMicroRefineryI => "MODULE_MICRO_REFINERY_I",
            ModuleSymbol::ModuleOreRefineryI => "MODULE_ORE_REFINERY_I",
            ModuleSymbol::ModuleFuelRefineryI => "MODULE_FUEL_REFINERY_I",
            ModuleSymbol::ModuleScienceLabI => "MODULE_SCIENCE_LAB_I",
            ModuleSymbol::ModuleJumpDriveI => "MODULE_JUMP_DRIVE_I",
            ModuleSymbol::ModuleJumpDriveII => "MODULE_JUMP_DRIVE_II",
            ModuleSymbol::ModuleJumpDriveIII => "MODULE_JUMP_DRIVE_III",
            ModuleSymbol::ModuleWarpDriveI => "MODULE_WARP_DRIVE_I",
            ModuleSymbol::ModuleWarpDriveII => "MODULE_WARP_DRIVE_II",
            ModuleSymbol::ModuleWarpDriveIII => "MODULE_WARP_DRIVE_III",
            ModuleSymbol::ModuleShieldGeneratorI => "MODULE_SHIELD_GENERATOR_I",
            ModuleSymbol::ModuleShieldGeneratorII => "MODULE_SHIELD_GENERATOR_II",
        }
    }

    /// Parse a wire tag; unknown tags are rejected.
    pub fn from_tag(s: &str) -> (r: Option<ModuleSymbol>)
        ensures
            r == ModuleSymbol::of_tag(s@),
    {
        let n = s.unicode_len();
        if n == 19 {
            if str_eq(s, "MODULE_CARGO_HOLD_I") {
                Some(ModuleSymbol::ModuleCargoHoldI)
            } else if str_eq(s, "MODULE_JUMP_DRIVE_I") {
                Some(ModuleSymbol::ModuleJumpDriveI)
            } else if str_eq(s, "MODULE_WARP_DRIVE_I") {
                Some(ModuleSymbol::ModuleWarpDriveI)
            } else {
                None
            }
        } else if n == 20 {
            if str_eq(s, "MODULE_SCIENCE_LAB_I") {
                Some(ModuleSymbol::ModuleScienceLabI)
            } else if str_eq(s, "MODULE_JUMP_DRIVE_II") {
                Some(ModuleSymbol::ModuleJumpDriveII)
            } else if str_eq(s, "MODULE_WARP_DRIVE_II") {
                Some(ModuleSymbol::ModuleWarpDriveII)
            } else {
                None
            }
        } else if n == 21 {
            if str_eq(s, "MODULE_ORE_REFINERY_I") {
                Some(ModuleSymbol::ModuleOreRefineryI)
            } else if str_eq(s, "MODULE_JUMP_DRIVE_III") {
                Some(ModuleSymbol::ModuleJumpDriveIII)
            } else if str_eq(s, "MODULE_WARP_DRIVE_III") {
                Some(ModuleSymbol::ModuleWarpDriveIII)
            } else {
                None
            }
        } else if n == 22 {
            if str_eq(s, "MODULE_CREW_QUARTERS_I") {
                Some(ModuleSymbol::ModuleCrewQuartersI)
            } else if str_eq(s, "MODULE_FUEL_REFINERY_I") {
                Some(ModuleSymbol::ModuleFuelRefineryI)
            } else {
                None
            }
        } else if n == 23 {
            if str_eq(s, "MODULE_ENVOY_QUARTERS_I") {
                Some(ModuleSymbol::ModuleEnvoyQuartersI)
            } else if str_eq(s, "MODULE_MICRO_REFINERY_I") {
                Some(ModuleSymbol::ModuleMicroRefineryI)
            } else {
                None
            }
        } else if n == 24 {
            if str_eq(s, "MODULE_PASSENGER_CABIN_I") {
                Some(ModuleSymbol::ModulePassengerCabinI)
            } else {
                None
            }
        } else if n == 25 {
            if str_eq(s, "MODULE_SHIELD_GENERATOR_I") {
                Some(ModuleSymbol::ModuleShieldGeneratorI)
            } else {
                None
            }
        } else if n == 26 {
            if str_eq(s, "MODULE_MINERAL_PROCESSOR_I") {
                Some(ModuleSymbol::ModuleMineralProcessorI)
            } else if str_eq(s, "MODULE_SHIELD_GENERATOR_II") {
                Some(ModuleSymbol::ModuleShieldGeneratorII)
            } else {
                None
            }
        } else {
            None
        }
    }

    proof fn lemma_tag_module_mineral_processor_i()
        ensures
            ModuleSymbol::of_tag("MODULE_MINERAL_PROCESSOR_I"@) == Some(ModuleSymbol::ModuleMineralProcessorI),
    {
        reveal_strlit("MODULE_MINERAL_PROCESSOR_I");
    }

    proof fn lemma_tag_module_cargo_hold_i()
        ensures
            ModuleSymbol::of_tag("MODULE_CARGO_HOLD_I"@) == Some(ModuleSymbol::ModuleCargoHoldI),
    {
        reveal_strlit("MODULE_CARGO_HOLD_I");
    }

    proof fn lemma_tag_module_crew_quarters_i()
        ensures
            ModuleSymbol::of_tag("MODULE_CREW_QUARTERS_I"@) == Some(ModuleSymbol::ModuleCrewQuartersI),
    {
        reveal_strlit("MODULE_CREW_QUARTERS_I");
    }

    proof fn lemma_tag_module_envoy_quarters_i()
        ensures
            ModuleSymbol::of_tag("MODULE_ENVOY_QUARTERS_I"@) == Some(ModuleSymbol::ModuleEnvoyQuartersI),
    {
        reveal_strlit("MODULE_ENVOY_QUARTERS_I");
    }

    proof fn lemma_tag_module_passenger_cabin_i()
        ensures
            ModuleSymbol::of_tag("MODULE_PASSENGER_CABIN_I"@) == Some(ModuleSymbol::ModulePassengerCabinI),
    {
        reveal_strlit("MODULE_PASSENGER_CABIN_I");
    }

    proof fn lemma_tag_module_micro_refinery_i()
        ensures
            ModuleSymbol::of_tag("MODULE_MICRO_REFINERY_I"@) == Some(ModuleSymbol::ModuleMicroRefineryI),
    {
        reveal_strlit("MODULE_MICRO_REFINERY_I");
        reveal_strlit("MODULE_ENVOY_QUARTERS_I");
        assert("MODULE_MICRO_REFINERY_I"@[7] != 'E');
    }

    proof fn lemma_tag_module_ore_refinery_i()
        ensures
            ModuleSymbol::of_tag("MODULE_ORE_REFINERY_I"@) == Some(ModuleSymbol::ModuleOreRefineryI),
    {
        reveal_strlit("MODULE_ORE_REFINERY_I");
    }

    proof fn lemma_tag_module_fuel_refinery_i()
        ensures
            ModuleSymbol::of_tag("MODULE_FUEL_REFINERY_I"@) == Some(ModuleSymbol::ModuleFuelRefineryI),
    {
        reveal_strlit("MODULE_FUEL_REFINERY_I");
        reveal_strlit("MODULE_CREW_QUARTERS_I");
        assert("MODULE_FUEL_REFINERY_I"@[7] != 'C');
    }

    proof fn lemma_tag_module_science_lab_i()
        ensures
            ModuleSymbol::of_tag("MODULE_SCIENCE_LAB_I"@) == Some(ModuleSymbol::ModuleScienceLabI),
    {
        reveal_strlit("MODULE_SCIENCE_LAB_I");
    }

    proof fn lemma_tag_module_jump_drive_i()
        ensures
            ModuleSymbol::of_tag("MODULE_JUMP_DRIVE_I"@) == Some(ModuleSymbol::ModuleJumpDriveI),
    {
        reveal_strlit("MODULE_JUMP_DRIVE_I");
        reveal_strlit("MODULE_CARGO_HOLD_I");
        assert("MODULE_JUMP_DRIVE_I"@[7] != 'C');
    }

    proof fn lemma_tag_module_jump_drive_i_i()
        ensures
            ModuleSymbol::of_tag("MODULE_JUMP_DRIVE_II"@) == Some(ModuleSymbol::ModuleJumpDriveII),
    {
        reveal_strlit("MODULE_JUMP_DRIVE_II");
        reveal_strlit("MODULE_SCIENCE_LAB_I");
        assert("MODULE_JUMP_DRIVE_II"@[7] != 'S');
    }

    proof fn lemma_tag_module_jump_drive_i_i_i()
        ensures
            ModuleSymbol::of_tag("MODULE_JUMP_DRIVE_III"@) == Some(ModuleSymbol::ModuleJumpDriveIII),
    {
        reveal_strlit("MODULE_JUMP_DRIVE_III");
        reveal_strlit("MODULE_ORE_REFINERY_I");
        assert("MODULE_JUMP_DRIVE_III"@[7] != 'O');
    }

    proof fn lemma_tag_module_warp_drive_i()
        ensures
            ModuleSymbol::of_tag("MODULE_WARP_DRIVE_I"@) == Some(ModuleSymbol::ModuleWarpDriveI),
    {
        reveal_strlit("MODULE_WARP_DRIVE_I");
        reveal_strlit("MODULE_CARGO_HOLD_I");
        assert("MODULE_WARP_DRIVE_I"@[7] != 'C');
        reveal_strlit("MODULE_JUMP_DRIVE_I");
        assert("MODULE_WARP_DRIVE_I"@[7] != 'J');
    }

    proof fn lemma_tag_module_warp_drive_i_i()
        ensures
            ModuleSymbol::of_tag("MODULE_WARP_DRIVE_II"@) == Some(ModuleSymbol::ModuleWarpDriveII),
    {
        reveal_strlit("MODULE_WARP_DRIVE_II");
        reveal_strlit("MODULE_SCIENCE_LAB_I");
        assert("MODULE_WARP_DRIVE_II"@[7] != 'S');
        reveal_strlit("MODULE_JUMP_DRIVE_II");
        assert("MODULE_WARP_DRIVE_II"@[7] != 'J');
    }

    proof fn lemma_tag_module_warp_drive_i_i_i()
        ensures
            ModuleSymbol::of_tag("MODULE_WARP_DRIVE_III"@) == Some(ModuleSymbol::ModuleWarpDriveIII),
    {
        reveal_strlit("MODULE_WARP_DRIVE_III");
        reveal_strlit("MODULE_ORE_REFINERY_I");
        assert("MODULE_WARP_DRIVE_III"@[7] != 'O');
        reveal_strlit("MODULE_JUMP_DRIVE_III");
        assert("MODULE_WARP_DRIVE_III"@[7] != 'J');
    }

    proof fn lemma_tag_module_shield_generator_i()
        ensures
            ModuleSymbol::of_tag("MODULE_SHIELD_GENERATOR_I"@) == Some(ModuleSymbol::ModuleShieldGeneratorI),
    {
        reveal_strlit("MODULE_SHIELD_GENERATOR_I");
    }

    proof fn lemma_tag_module_shield_generator_i_i()
        ensures
            ModuleSymbol::of_tag("MODULE_SHIELD_GENERATOR_II"@) == Some(ModuleSymbol::ModuleShieldGeneratorII),
    {
        reveal_strlit("MODULE_SHIELD_GENERATOR_II");
        reveal_strlit("MODULE_MINERAL_PROCESSOR_I");
        assert("MODULE_SHIELD_GENERATOR_II"@[7] != 'M');
    }

    /// Writing a value's tag and reading it back yields the value.
    pub proof fn lemma_tag_round_trip(self)
        ensures
            ModuleSymbol::of_tag(self.tag_spec()) == Some(self),
    {
        match self {
            ModuleSymbol::ModuleMineralProcessorI => ModuleSymbol::lemma_tag_module_mineral_processor_i(),
            ModuleSymbol::ModuleCargoHoldI => ModuleSymbol::lemma_tag_module_cargo_hold_i(),
            ModuleSymbol::ModuleCrewQuartersI => ModuleSymbol::lemma_tag_module_crew_quarters_i(),
            ModuleSymbol::ModuleEnvoyQuartersI => ModuleSymbol::lemma_tag_module_envoy_quarters_i(),
            ModuleSymbol::ModulePassengerCabinI => ModuleSymbol::lemma_tag_module_passenger_cabin_i(),
            ModuleSymbol::ModuleMicroRefineryI => ModuleSymbol::lemma_tag_module_micro_refinery_i(),
            ModuleSymbol::ModuleOreRefineryI => ModuleSymbol::lemma_tag_module_ore_refinery_i(),
            ModuleSymbol::ModuleFuelRefineryI => ModuleSymbol::lemma_tag_module_fuel_refinery_i(),
            ModuleSymbol::ModuleScienceLabI => ModuleSymbol::lemma_tag_module_science_lab_i(),
            ModuleSymbol::ModuleJumpDriveI => ModuleSymbol::lemma_tag_module_jump_drive_i(),
            ModuleSymbol::ModuleJumpDriveII => ModuleSymbol::lemma_tag_module_jump_drive_i_i(),
            ModuleSymbol::ModuleJumpDriveIII => ModuleSymbol::lemma_tag_module_jump_drive_i_i_i(),
            ModuleSymbol::ModuleWarpDriveI => ModuleSymbol::lemma_tag_module_warp_drive_i(),
            ModuleSymbol::ModuleWarpDriveII => ModuleSymbol::lemma_tag_module_warp_drive_i_i(),
            ModuleSymbol::ModuleWarpDriveIII => ModuleSymbol::lemma_tag_module_warp_drive_i_i_i(),
            ModuleSymbol::ModuleShieldGeneratorI => ModuleSymbol::lemma_tag_module_shield_generator_i(),
            ModuleSymbol::ModuleShieldGeneratorII => ModuleSymbol::lemma_tag_module_shield_generator_i_i(),
        }
    }
}

#[derive(Debug, Clone, Copy, PartialEq, Eq, Structural)]
pub enum Deposit {
    QuartzSand,
    SiliconCrystals,
    PreciousStones,
    IceWater,
    AmmoniaIce,
    IronOre,
    CopperOre,
    SilverOre,
    AluminumOre,
    GoldOre,
    PlatinumOre,
    Diamonds,
    UraniteOre,
    MeritiumOre,
}

impl DeepView for Deposit {
    type V = Deposit;

    open spec fn deep_view(&self) -> Deposit {
        *self
    }
}

impl Deposit {
    /// The wire tag of this value.
    pub open spec fn tag_spec(self) -> Seq<char> {
        match self {
            Deposit::QuartzSand => "QUARTZ_SAND"@,
            Deposit::SiliconCrystals => "SILICON_CRYSTALS"@,
            Deposit::PreciousStones => "PRECIOUS_STONES"@,
            Deposit::IceWater => "ICE_WATER"@,
            Deposit::AmmoniaIce => "AMMONIA_ICE"@,
            Deposit::IronOre => "IRON_ORE"@,
            Deposit::CopperOre => "COPPER_ORE"@,
            Deposit::SilverOre => "SILVER_ORE"@,
            Deposit::AluminumOre => "ALUMINUM_ORE"@,
            Deposit::GoldOre => "GOLD_ORE"@,
            Deposit::PlatinumOre => "PLATINUM_ORE"@,
            Deposit::Diamonds => "DIAMONDS"@,
            Deposit::UraniteOre => "URANITE_ORE"@,
            Deposit::MeritiumOre => "MERITIUM_ORE"@,
        }
    }

    /// The value a wire tag denotes, if any: tags are told apart by
    /// length first, then by content.
    pub open spec fn of_tag(s: Seq<char>) -> Option<Deposit> {
        if s.len() == 8 {
            if s == "IRON_ORE"@ {
                Some(Deposit::IronOre)
            } else if s == "GOLD_ORE"@ {
                Some(Deposit::GoldOre)
            } else if s == "DIAMONDS"@ {
                Some(Deposit::Diamonds)
            } else {
                None
            }
        } else if s.len() == 9 {
            if s == "ICE_WATER"@ {
                Some(Deposit::IceWater)
            } else {
                None
            }
        } else if s.len() == 10 {
            if s == "COPPER_ORE"@ {
                Some(Deposit::CopperOre)
            } else if s == "SILVER_ORE"@ {
                Some(Deposit::SilverOre)
            } else {
                None
            }
        } else if s.len() == 11 {
            if s == "QUARTZ_SAND"@ {
                Some(Deposit::QuartzSand)
            } else if s == "AMMONIA_ICE"@ {
                Some(Deposit::AmmoniaIce)
            } else if s == "URANITE_ORE"@ {
                Some(Deposit::UraniteOre)
            } else {
                None
            }
        } else if s.len() == 12 {
            if s == "ALUMINUM_ORE"@ {
                Some(Deposit::AluminumOre)
            } else if s == "PLATINUM_ORE"@ {
                Some(Deposit::PlatinumOre)
            } else if s == "MERITIUM_ORE"@ {
                Some(Deposit::MeritiumOre)
            } else {
                None
            }
        } else if s.len() == 15 {
            if s == "PRECIOUS_STONES"@ {
                Some(Deposit::PreciousStones)
            } else {
                None
            }
        } else if s.len() == 16 {
            if s == "SILICON_CRYSTALS"@ {
                Some(Deposit::SiliconCrystals)
            } else {
                None
            }
        } else {
            None
        }
    }

    /// The wire tag of this value.
    pub fn as_str(&self) -> (r: &'static str)
        ensures
            r@ == self.tag_spec(),
    {
        match self {
            Deposit::QuartzSand => "QUARTZ_SAND",
            Deposit::SiliconCrystals => "SILICON_CRYSTALS",
            Deposit::PreciousStones => "PRECIOUS_STONES",
            Deposit::IceWater => "ICE_WATER",
            Deposit::AmmoniaIce => "AMMONIA_ICE",
            Deposit::IronOre => "IRON_ORE",
            Deposit::CopperOre => "COPPER_ORE",
            Deposit::SilverOre => "SILVER_ORE",
            Deposit::AluminumOre => "ALUMINUM_ORE",
            Deposit::GoldOre => "GOLD_ORE",
            Deposit::PlatinumOre => "PLATINUM_ORE",
            Deposit::Diamonds => "DIAMONDS",
            Deposit::UraniteOre => "URANITE_ORE",
            Deposit::MeritiumOre => "MERITIUM_ORE",
        }
    }

    /// Parse a wire tag; unknown tags are rejected.
    pub fn from_tag(s: &str) -> (r: Option<Deposit>)
        ensures
            r == Deposit::of_tag(s@),
    {
        let n = s.unicode_len();
        if n == 8 {
            if str_eq(s, "IRON_ORE") {
                Some(Deposit::IronOre)
            } else if str_eq(s, "GOLD_ORE") {
                Some(Deposit::GoldOre)
            } else if str_eq(s, "DIAMONDS") {
                Some(Deposit::Diamonds)
            } else {
                None
            }
        } else if n == 9 {
            if str_eq(s, "ICE_WATER") {
                Some(Deposit::IceWater)
            } else {
                None
            }
        } else if n == 10 {
            if str_eq(s, "COPPER_ORE") {
                Some(Deposit::CopperOre)
            } else if str_eq(s, "SILVER_ORE") {
                Some(Deposit::SilverOre)
            } else {
                None
            }
        } else if n == 11 {
            if str_eq(s, "QUARTZ_SAND") {
                Some(Deposit::QuartzSand)
            } else if str_eq(s, "AMMONIA_ICE") {
                Some(Deposit::AmmoniaIce)
            } else if str_eq(s, "URANITE_ORE") {
                Some(Deposit::UraniteOre)
            } else {
                None
            }
        } else if n == 12 {
            if str_eq(s, "ALUMINUM_ORE") {
                Some(Deposit::AluminumOre)
            } else if str_eq(s, "PLATINUM_ORE") {
                Some(Deposit::PlatinumOre)
            } else if str_eq(s, "MERITIUM_ORE") {
                Some(Deposit::MeritiumOre)
            } else {
                None
            }
        } else if n == 15 {
            if str_eq(s, "PRECIOUS_STONES") {
                Some(Deposit::PreciousStones)
            } else {
                None
            }
        } else if n == 16 {
            if str_eq(s, "SILICON_CRYSTALS") {
                Some(Deposit::SiliconCrystals)
            } else {
                None
            }
        } else {
            None
        }
    }

    proof fn lemma_tag_quartz_sand()
        ensures
            Deposit::of_tag("QUARTZ_SAND"@) == Some(Deposit::QuartzSand),
    {
        reveal_strlit("QUARTZ_SAND");
    }

    proof fn lemma_tag_silicon_crystals()
        ensures
            Deposit::of_tag("SILICON_CRYSTALS"@) == Some(Deposit::SiliconCrystals),
    {
        reveal_strlit("SILICON_CRYSTALS");
    }

    proof fn lemma_tag_precious_stones()
        ensures
            Deposit::of_tag("PRECIOUS_STONES"@) == Some(Deposit::PreciousStones),
    {
        reveal_strlit("PRECIOUS_STONES");
    }

    proof fn lemma_tag_ice_water()
        ensures
            Deposit::of_tag("ICE_WATER"@) == Some(Deposit::IceWater),
    {
        reveal_strlit("ICE_WATER");
    }

    proof fn lemma_tag_ammonia_ice()
        ensures
            Deposit::of_tag("AMMONIA_ICE"@) == Some(Deposit::AmmoniaIce),
    {
        reveal_strlit("AMMONIA_ICE");
        reveal_strlit("QUARTZ_SAND");
        assert("AMMONIA_ICE"@[0] != 'Q');
    }

    proof fn lemma_tag_iron_ore()
        ensures
            Deposit::of_tag("IRON_ORE"@) == Some(Deposit::IronOre),
    {
        reveal_strlit("IRON_ORE");
    }

    proof fn lemma_tag_copper_ore()
        ensures
            Deposit::of_tag("COPPER_ORE"@) == Some(Deposit::CopperOre),
    {
        reveal_strlit("COPPER_ORE");
    }

    proof fn lemma_tag_silver_ore()
        ensures
            Deposit::of_tag("SILVER_ORE"@) == Some(Deposit::SilverOre),
    {
        reveal_strlit("SILVER_ORE");
        reveal_strlit("COPPER_ORE");
        assert("SILVER_ORE"@[0] != 'C');
    }

    proof fn lemma_tag_aluminum_ore()
        ensures
            Deposit::of_tag("ALUMINUM_ORE"@) == Some(Deposit::AluminumOre),
    {
        reveal_strlit("ALUMINUM_ORE");
    }

    proof fn lemma_tag_gold_ore()
        ensures
            Deposit::of_tag("GOLD_ORE"@) == Some(Deposit::GoldOre),
    {
        reveal_strlit("GOLD_ORE");
        reveal_strlit("IRON_ORE");
        assert("GOLD_ORE"@[0] != 'I');
    }

    proof fn lemma_tag_platinum_ore()
        ensures
            Deposit::of_tag("PLATINUM_ORE"@) == Some(Deposit::PlatinumOre),
    {
        reveal_strlit("PLATINUM_ORE");
        reveal_strlit("ALUMINUM_ORE");
        assert("PLATINUM_ORE"@[0] != 'A');
    }

    proof fn lemma_tag_diamonds()
        ensures
            Deposit::of_tag("DIAMONDS"@) == Some(Deposit::Diamonds),
    {
        reveal_strlit("DIAMONDS");
        reveal_strlit("IRON_ORE");
        assert("DIAMONDS"@[0] != 'I');
        reveal_strlit("GOLD_ORE");
        assert("DIAMONDS"@[0] != 'G');
    }

    proof fn lemma_tag_uranite_ore()
        ensures
            Deposit::of_tag("URANITE_ORE"@) == Some(Deposit::UraniteOre),
    {
        reveal_strlit("URANITE_ORE");
        reveal_strlit("QUARTZ_SAND");
        assert("URANITE_ORE"@[0] != 'Q');
        reveal_strlit("AMMONIA_ICE");
        assert("URANITE_ORE"@[0] != 'A');
    }

    proof fn lemma_tag_meritium_ore()
        ensures
            Deposit::of_tag("MERITIUM_ORE"@) == Some(Deposit::MeritiumOre),
    {
        reveal_strlit("MERITIUM_ORE");
        reveal_strlit("ALUMINUM_ORE");
        assert("MERITIUM_ORE"@[0] != 'A');
        reveal_strlit("PLATINUM_ORE");
        assert("MERITIUM_ORE"@[0] != 'P');
    }

    /// Writing a value's tag and reading it back yields the value.
    pub proof fn lemma_tag_round_trip(self)
        ensures
            Deposit::of_tag(self.tag_spec()) == Some(self),
    {
        match self {
            Deposit::QuartzSand => Deposit::lemma_tag_quartz_sand(),
            Deposit::SiliconCrystals => Deposit::lemma_tag_silicon_crystals(),
            Deposit::PreciousStones => Deposit::lemma_tag_precious_stones(),
            Deposit::IceWater => Deposit::lemma_tag_ice_water(),
            Deposit::AmmoniaIce => Deposit::lemma_tag_ammonia_ice(),
            Deposit::IronOre => Deposit::lemma_tag_iron_ore(),
            Deposit::CopperOre => Deposit::lemma_tag_copper_ore(),
            Deposit::SilverOre => Deposit::lemma_tag_silver_ore(),
            Deposit::AluminumOre => Deposit::lemma_tag_aluminum_ore(),
            Deposit::GoldOre => Deposit::lemma_tag_gold_ore(),
            Deposit::PlatinumOre => Deposit::lemma_tag_platinum_ore(),
            Deposit::Diamonds => Deposit::lemma_tag_diamonds(),
            Deposit::UraniteOre => Deposit::lemma_tag_uranite_ore(),
            Deposit::MeritiumOre => Deposit::lemma_tag_meritium_ore(),
        }
    }
}

/// The JSON array elements for a sequence of values.
pub open spec fn deposit_seq_to_jv(vs: Seq<Deposit>) -> Seq<JsonV>
    decreases vs.len(),
{
    if vs.len() == 0 {
        Seq::empty()
    } else {
        seq![JsonV::Str(vs[0].tag_spec())] + deposit_seq_to_jv(vs.drop_first())
    }
}

/// Extract a sequence of values from JSON array elements.
pub open spec fn deposit_seq_of_jv(items: Seq<JsonV>) -> Option<Seq<Deposit>>
    decreases items.len(),
{
    if items.len() == 0 {
        Some(Seq::empty())
    } else {
        match ((match items[0] { JsonV::Str(s) => Deposit::of_tag(s), _ => None }), deposit_seq_of_jv(items.drop_first())) {
            (Some(v), Some(vs)) => Some(seq![v] + vs),
            _ => None,
        }
    }
}

/// Writing a sequence and reading it back yields the sequence.
pub proof fn lemma_deposit_seq_round_trip(vs: Seq<Deposit>)
    requires
        true,
    ensures
        deposit_seq_of_jv(deposit_seq_to_jv(vs)) == Some(vs),
    decreases vs.len(),
{
    if vs.len() > 0 {
        vs[0].lemma_tag_round_trip();
        lemma_deposit_seq_round_trip(vs.drop_first());
        assert(deposit_seq_to_jv(vs).drop_first() =~= deposit_seq_to_jv(vs.drop_first()));
        assert(seq![vs[0]] + vs.drop_first() =~= vs);
    }
}

/// The JSON array of well-formed views is representable: every integer
/// in it fits.
pub proof fn lemma_deposit_seq_to_jv_wf(vs: Seq<Deposit>)
    ensures
        forall|i: int| 0 <= i < deposit_seq_to_jv(vs).len() ==> jv_wf(
            #[trigger] deposit_seq_to_jv(vs)[i],
        ),
        jv_wf(JsonV::Arr(deposit_seq_to_jv(vs))),
    decreases vs.len(),
{
    if vs.len() > 0 {
        lemma_deposit_seq_to_jv_wf(vs.drop_first());
        let ws = deposit_seq_to_jv(vs);
        let tl = deposit_seq_to_jv(vs.drop_first());
        assert(ws == seq![JsonV::Str(vs[0].tag_spec())] + tl);
        assert(jv_wf(ws[0]));
        assert(jv_wf(JsonV::Arr(tl)));
        assert forall|i: int| 0 <= i < ws.len() implies jv_wf(#[trigger] ws[i]) by {
            if i > 0 {
                assert(ws[i] == tl[i - 1]);
                assert(jv_wf(tl[i - 1]));
            }
        }
    } else {
        assert(deposit_seq_to_jv(vs) =~= Seq::<JsonV>::empty());
    }
}

impl Deposit {
    /// Encode a vector tail (from `k` on) as JSON array elements.
    pub fn vec_to_json(items: &Vec<Deposit>, k: usize) -> (r: Vec<Json>)
        requires
            k <= items@.len(),
        ensures
            jv_seq(r@) == deposit_seq_to_jv(items.deep_view().skip(k as int)),
        decreases items@.len() - k,
    {
        let ghost dv = items.deep_view();
        if k == items.len() {
            let out: Vec<Json> = Vec::new();
            proof {
                assert(out@ =~= Seq::<Json>::empty());
                assert(jv_seq(out@) =~= Seq::<JsonV>::empty());
                assert(dv.skip(k as int) =~= Seq::<Deposit>::empty());
            }
            out
        } else {
            let mut rest = Self::vec_to_json(items, k + 1);
            let hd = Json::Str(String::from_str(items[k].as_str()));
            let ghost restv = rest@;
            rest.insert(0, hd);
            proof {
                assert(rest@[0] == hd);
                assert(rest@.drop_first() =~= restv);
                assert(jv_seq(rest@) =~= seq![jv(hd)] + jv_seq(restv));
                assert(dv.skip(k as int)[0] == dv[k as int]);
                assert(dv.skip(k as int).drop_first() =~= dv.skip(k as int + 1));
                assert(jv_seq(rest@) =~= deposit_seq_to_jv(dv.skip(k as int)));
            }
            rest
        }
    }

    /// Encode a whole vector as a JSON array.
    pub fn vec_json(items: &Vec<Deposit>) -> (r: Json)
        ensures
            jv(r) == JsonV::Arr(deposit_seq_to_jv(items.deep_view())),
    {
        let out = Self::vec_to_json(items, 0);
        proof {
            assert(items.deep_view().skip(0) =~= items.deep_view());
        }
        Json::Arr(out)
    }

    /// Decode a vector from JSON array elements, from `k` on.
    pub fn vec_from_json(items: &Vec<Json>, k: usize) -> (r: Option<Vec<Deposit>>)
        requires
            k <= items@.len(),
        ensures
            match r {
                Some(vs) => deposit_seq_of_jv(jv_seq(items@).skip(k as int)) == Some(vs.deep_view())
                    && (true),
                None => deposit_seq_of_jv(jv_seq(items@).skip(k as int)) is None,
            },
        decreases items@.len() - k,
    {
        let ghost sv = jv_seq(items@);
        proof {
            lemma_jv_seq(items@);
        }
        if k == items.len() {
            let out: Vec<Deposit> = Vec::new();
            proof {
                assert(sv.skip(k as int) =~= Seq::<JsonV>::empty());
                assert(out.deep_view() =~= Seq::<Deposit>::empty());
            }
            return Some(out);
        }
        proof {
            assert(sv.skip(k as int)[0] == sv[k as int]);
            assert(sv.skip(k as int).drop_first() =~= sv.skip(k as int + 1));
        }
        let hd = match &items[k] {
            Json::Str(s) => match Deposit::from_tag(s.as_str()) {
                Some(v) => v,
                None => { return None; }
            },
            _ => { return None; }
        };
        match Self::vec_from_json(items, k + 1) {
            Some(mut vs) => {
                let ghost older = vs.deep_view();
                vs.insert(0, hd);
                proof {
                    assert(vs.deep_view()[0] == hd.deep_view());
                    assert(vs.deep_view().drop_first() =~= older);
                    assert(vs.deep_view() =~= seq![hd.deep_view()] + older);
                }
                Some(vs)
            }
            None => None,
        }
    }

    /// Decode a vector from a JSON value that must be an array.
    pub fn vec_from_json_value(j: &Json) -> (r: Option<Vec<Deposit>>)
        ensures
            match r {
                Some(vs) => (match jv(*j) {
                    JsonV::Arr(items) => deposit_seq_of_jv(items) == Some(vs.deep_view()),
                    _ => false,
                }) && (true),
                None => (match jv(*j) {
                    JsonV::Arr(items) => deposit_seq_of_jv(items) is None,
                    _ => true,
                }),
            },
    {
        let items = match j {
            Json::Arr(items) => items,
            _ => { return None; }
        };
        proof {
            assert(*j == Json::Arr(*items));
            assert(jv_seq(items@).skip(0) =~= jv_seq(items@));
        }
        Self::vec_from_json(items, 0)
    }
}

#[derive(Debug, Clone, Copy, PartialEq, Eq, Structural)]
pub enum MountSymbol {
    MountGasSiphonI,
    MountGasSiphonII,
    MountGasSiphonIII,
    MountSurveyorI,
    MountSurveyorII,
    MountSurveyorIII,
    MountSensorArrayI,
    MountSensorArrayII,
    MountSensorArrayIII,
    MountMiningLaserI,
    MountMiningLaserII,
    MountMiningLaserIII,
    MountLaserCannonI,
    MountMissileLauncherI,
    MountTurretI,
}

impl DeepView for MountSymbol {
    type V = MountSymbol;

    open spec fn deep_view(&self) -> MountSymbol {
        *self
    }
}

impl MountSymbol {
    /// The wire tag of this value.
    pub open spec fn tag_spec(self) -> Seq<char> {
        match self {
            MountSymbol::MountGasSiphonI => "MOUNT_GAS_SIPHON_I"@,
            MountSymbol::MountGasSiphonII => "MOUNT_GAS_SIPHON_II"@,
            MountSymbol::MountGasSiphonIII => "MOUNT_GAS_SIPHON_III"@,
            MountSymbol::MountSurveyorI => "MOUNT_SURVEYOR_I"@,
            MountSymbol::MountSurveyorII => "MOUNT_SURVEYOR_II"@,
            MountSymbol::MountSurveyorIII => "MOUNT_SURVEYOR_III"@,
            MountSymbol::MountSensorArrayI => "MOUNT_SENSOR_ARRAY_I"@,
            MountSymbol::MountSensorArrayII => "MOUNT_SENSOR_ARRAY_II"@,
            MountSymbol::MountSensorArrayIII => "MOUNT_SENSOR_ARRAY_III"@,
            MountSymbol::MountMiningLaserI => "MOUNT_MINING_LASER_I"@,
            MountSymbol::MountMiningLaserII => "MOUNT_MINING_LASER_II"@,
            MountSymbol::MountMiningLaserIII => "MOUNT_MINING_LASER_III"@,
            MountSymbol::MountLaserCannonI => "MOUNT_LASER_CANNON_I"@,
            MountSymbol::MountMissileLauncherI => "MOUNT_MISSILE_LAUNCHER_I"@,
            MountSymbol::MountTurretI => "MOUNT_TURRET_I"@,
        }
    }

    /// The value a wire tag denotes, if any: tags are told apart by
    /// length first, then by content.
    pub open spec fn of_tag(s: Seq<char>) -> Option<MountSymbol> {
        if s.len() == 14 {
            if s == "MOUNT_TURRET_I"@ {
                Some(MountSymbol::MountTurretI)
            } else {
                None
            }
        } else if s.len() == 16 {
            if s == "MOUNT_SURVEYOR_I"@ {
                Some(MountSymbol::MountSurveyorI)
            } else {
                None
            }
        } else if s.len() == 17 {
            if s == "MOUNT_SURVEYOR_II"@ {
                Some(MountSymbol::MountSurveyorII)
            } else {
                None
            }
        } else if s.len() == 18 {
            if s == "MOUNT_GAS_SIPHON_I"@ {
                Some(MountSymbol::MountGasSiphonI)
            } else if s == "MOUNT_SURVEYOR_III"@ {
                Some(MountSymbol::MountSurveyorIII)
            } else {
                None
            }
        } else if s.len() == 19 {
            if s == "MOUNT_GAS_SIPHON_II"@ {
                Some(MountSymbol::MountGasSiphonII)
            } else {
                None
            }
        } else if s.len() == 20 {
            if s == "MOUNT_GAS_SIPHON_III"@ {
                Some(MountSymbol::MountGasSiphonIII)
            } else if s == "MOUNT_SENSOR_ARRAY_I"@ {
                Some(MountSymbol::MountSensorArrayI)
            } else if s == "MOUNT_MINING_LASER_I"@ {
                Some(MountSymbol::MountMiningLaserI)
            } else if s == "MOUNT_LASER_CANNON_I"@ {
                Some(MountSymbol::MountLaserCannonI)
            } else {
                None
            }
        } else if s.len() == 21 {
            if s == "MOUNT_SENSOR_ARRAY_II"@ {
                Some(MountSymbol::MountSensorArrayII)
            } else if s == "MOUNT_MINING_LASER_II"@ {
                Some(MountSymbol::MountMiningLaserII)
            } else {
                None
            }
        } else if s.len() == 22 {
            if s == "MOUNT_SENSOR_ARRAY_III"@ {
                Some(MountSymbol::MountSensorArrayIII)
            } else if s == "MOUNT_MINING_LASER_III"@ {
                Some(MountSymbol::MountMiningLaserIII)
            } else {
                None
            }
        } else if s.len() == 24 {
            if s == "MOUNT_MISSILE_LAUNCHER_I"@ {
                Some(MountSymbol::MountMissileLauncherI)
            } else {
                None
            }
        } else {
            None
        }
    }

    /// The wire tag of this value.
    pub fn as_str(&self) -> (r: &'static str)
        ensures
            r@ == self.tag_spec(),
    {
        match self {
            MountSymbol::MountGasSiphonI => "MOUNT_GAS_SIPHON_I",
            MountSymbol::MountGasSiphonII => "MOUNT_GAS_SIPHON_II",
            MountSymbol::MountGasSiphonIII => "MOUNT_GAS_SIPHON_III",
            MountSymbol::MountSurveyorI => "MOUNT_SURVEYOR_I",
            MountSymbol::MountSurveyorII => "MOUNT_SURVEYOR_II",
            MountSymbol::MountSurveyorIII => "MOUNT_SURVEYOR_III",
            MountSymbol::MountSensorArrayI => "MOUNT_SENSOR_ARRAY_I",
            MountSymbol::MountSensorArrayII => "MOUNT_SENSOR_ARRAY_II",
            MountSymbol::MountSensorArrayIII => "MOUNT_SENSOR_ARRAY_III",
            MountSymbol::MountMiningLaserI => "MOUNT_MINING_LASER_I",
            MountSymbol::MountMiningLaserII => "MOUNT_MINING_LASER_II",
            MountSymbol::MountMiningLaserIII => "MOUNT_MINING_LASER_III",
            MountSymbol::MountLaserCannonI => "MOUNT_LASER_CANNON_I",
            MountSymbol::MountMissileLauncherI => "MOUNT_MISSILE_LAUNCHER_I",
            MountSymbol::MountTurretI => "MOUNT_TURRET_I",
        }
    }

    /// Parse a wire tag; unknown tags are rejected.
    pub fn from_tag(s: &str) -> (r: Option<MountSymbol>)
        ensures
            r == MountSymbol::of_tag(s@),
    {
        let n = s.unicode_len();
        if n == 14 {
            if str_eq(s, "MOUNT_TURRET_I") {
                Some(MountSymbol::MountTurretI)
            } else {
                None
            }
        } else if n == 16 {
            if str_eq(s, "MOUNT_SURVEYOR_I") {
                Some(MountSymbol::MountSurveyorI)
            } else {
                None
            }
        } else if n == 17 {
            if str_eq(s, "MOUNT_SURVEYOR_II") {
                Some(MountSymbol::MountSurveyorII)
            } else {
                None
            }
        } else if n == 18 {
            if str_eq(s, "MOUNT_GAS_SIPHON_I") {
                Some(MountSymbol::MountGasSiphonI)
            } else if str_eq(s, "MOUNT_SURVEYOR_III") {
                Some(MountSymbol::MountSurveyorIII)
            } else {
                None
            }
        } else if n == 19 {
            if str_eq(s, "MOUNT_GAS_SIPHON_II") {
                Some(MountSymbol::MountGasSiphonII)
            } else {
                None
            }
        } else if n == 20 {
            if str_eq(s, "MOUNT_GAS_SIPHON_III") {
                Some(MountSymbol::MountGasSiphonIII)
            } else if str_eq(s, "MOUNT_SENSOR_ARRAY_I") {
                Some(MountSymbol::MountSensorArrayI)
            } else if str_eq(s, "MOUNT_MINING_LASER_I") {
                Some(MountSymbol::MountMiningLaserI)
            } else if str_eq(s, "MOUNT_LASER_CANNON_I") {
                Some(MountSymbol::MountLaserCannonI)
            } else {
                None
            }
        } else if n == 21 {
            if str_eq(s, "MOUNT_SENSOR_ARRAY_II") {
                Some(MountSymbol::MountSensorArrayII)
            } else if str_eq(s, "MOUNT_MINING_LASER_II") {
                Some(MountSymbol::MountMiningLaserII)
            } else {
                None
            }
        } else if n == 22 {
            if str_eq(s, "MOUNT_SENSOR_ARRAY_III") {
                Some(MountSymbol::MountSensorArrayIII)
            } else if str_eq(s, "MOUNT_MINING_LASER_III") {
                Some(MountSymbol::MountMiningLaserIII)
            } else {
                None
            }
        } else if n == 24 {
            if str_eq(s, "MOUNT_MISSILE_LAUNCHER_I") {
                Some(MountSymbol::MountMissileLauncherI)
            } else {
                None
            }
        } else {
            None
        }
    }

    proof fn lemma_tag_mount_gas_siphon_i()
        ensures
            MountSymbol::of_tag("MOUNT_GAS_SIPHON_I"@) == Some(MountSymbol::MountGasSiphonI),
    {
        reveal_strlit("MOUNT_GAS_SIPHON_I");
    }

    proof fn lemma_tag_mount_gas_siphon_i_i()
        ensures
            MountSymbol::of_tag("MOUNT_GAS_SIPHON_II"@) == Some(MountSymbol::MountGasSiphonII),
    {
        reveal_strlit("MOUNT_GAS_SIPHON_II");
    }

    proof fn lemma_tag_mount_gas_siphon_i_i_i()
        ensures
            MountSymbol::of_tag("MOUNT_GAS_SIPHON_III"@) == Some(MountSymbol::MountGasSiphonIII),
    {
        reveal_strlit("MOUNT_GAS_SIPHON_III");
    }

    proof fn lemma_tag_mount_surveyor_i()
        ensures
            MountSymbol::of_tag("MOUNT_SURVEYOR_I"@) == Some(MountSymbol::MountSurveyorI),
    {
        reveal_strlit("MOUNT_SURVEYOR_I");
    }

    proof fn lemma_tag_mount_surveyor_i_i()
        ensures
            MountSymbol::of_tag("MOUNT_SURVEYOR_II"@) == Some(MountSymbol::MountSurveyorII),
    {
        reveal_strlit("MOUNT_SURVEYOR_II");
    }

    proof fn lemma_tag_mount_surveyor_i_i_i()
        ensures
            MountSymbol::of_tag("MOUNT_SURVEYOR_III"@) == Some(MountSymbol::MountSurveyorIII),
    {
        reveal_strlit("MOUNT_SURVEYOR_III");
        reveal_strlit("MOUNT_GAS_SIPHON_I");
        assert("MOUNT_SURVEYOR_III"@[6] != 'G');
    }

    proof fn lemma_tag_mount_sensor_array_i()
        ensures
            MountSymbol::of_tag("MOUNT_SENSOR_ARRAY_I"@) == Some(MountSymbol::MountSensorArrayI),
    {
        reveal_strlit("MOUNT_SENSOR_ARRAY_I");
        reveal_strlit("MOUNT_GAS_SIPHON_III");
        assert("MOUNT_SENSOR_ARRAY_I"@[6] != 'G');
    }

    proof fn lemma_tag_mount_sensor_array_i_i()
        ensures
            MountSymbol::of_tag("MOUNT_SENSOR_ARRAY_II"@) == Some(MountSymbol::MountSensorArrayII),
    {
        reveal_strlit("MOUNT_SENSOR_ARRAY_II");
    }

    proof fn lemma_tag_mount_sensor_array_i_i_i()
        ensures
            MountSymbol::of_tag("MOUNT_SENSOR_ARRAY_III"@) == Some(MountSymbol::MountSensorArrayIII),
    {
        reveal_strlit("MOUNT_SENSOR_ARRAY_III");
    }

    proof fn lemma_tag_mount_mining_laser_i()
        ensures
            MountSymbol::of_tag("MOUNT_MINING_LASER_I"@) == Some(MountSymbol::MountMiningLaserI),
    {
        reveal_strlit("MOUNT_MINING_LASER_I");
        reveal_strlit("MOUNT_GAS_SIPHON_III");
        assert("MOUNT_MINING_LASER_I"@[6] != 'G');
        reveal_strlit("MOUNT_SENSOR_ARRAY_I");
        assert("MOUNT_MINING_LASER_I"@[6] != 'S');
    }

    proof fn lemma_tag_mount_mining_laser_i_i()
        ensures
            MountSymbol::of_tag("MOUNT_MINING_LASER_II"@) == Some(MountSymbol::MountMiningLaserII),
    {
        reveal_strlit("MOUNT_MINING_LASER_II");
        reveal_strlit("MOUNT_SENSOR_ARRAY_II");
        assert("MOUNT_MINING_LASER_II"@[6] != 'S');
    }

    proof fn lemma_tag_mount_mining_laser_i_i_i()
        ensures
            MountSymbol::of_tag("MOUNT_MINING_LASER_III"@) == Some(MountSymbol::MountMiningLaserIII),
    {
        reveal_strlit("MOUNT_MINING_LASER_III");
        reveal_strlit("MOUNT_SENSOR_ARRAY_III");
        assert("MOUNT_MINING_LASER_III"@[6] != 'S');
    }

    proof fn lemma_tag_mount_laser_cannon_i()
        ensures
            MountSymbol::of_tag("MOUNT_LASER_CANNON_I"@) == Some(MountSymbol::MountLaserCannonI),
    {
        reveal_strlit("MOUNT_LASER_CANNON_I");
        reveal_strlit("MOUNT_GAS_SIPHON_III");
        assert("MOUNT_LASER_CANNON_I"@[6] != 'G');
        reveal_strlit("MOUNT_SENSOR_ARRAY_I");
        assert("MOUNT_LASER_CANNON_I"@[6] != 'S');
        reveal_strlit("MOUNT_MINING_LASER_I");
        assert("MOUNT_LASER_CANNON_I"@[6] != 'M');
    }

    proof fn lemma_tag_mount_missile_launcher_i()
        ensures
            MountSymbol::of_tag("MOUNT_MISSILE_LAUNCHER_I"@) == Some(MountSymbol::MountMissileLauncherI),
    {
        reveal_strlit("MOUNT_MISSILE_LAUNCHER_I");
    }

    proof fn lemma_tag_mount_turret_i()
        ensures
            MountSymbol::of_tag("MOUNT_TURRET_I"@) == Some(MountSymbol::MountTurretI),
    {
        reveal_strlit("MOUNT_TURRET_I");
    }

    /// Writing a value's tag and reading it back yields the value.
    pub proof fn lemma_tag_round_trip(self)
        ensures
            MountSymbol::of_tag(self.tag_spec()) == Some(self),
    {
        match self {
            MountSymbol::MountGasSiphonI => MountSymbol::lemma_tag_mount_gas_siphon_i(),
            MountSymbol::MountGasSiphonII => MountSymbol::lemma_tag_mount_gas_siphon_i_i(),
            MountSymbol::MountGasSiphonIII => MountSymbol::lemma_tag_mount_gas_siphon_i_i_i(),
            MountSymbol::MountSurveyorI => MountSymbol::lemma_tag_mount_surveyor_i(),
            MountSymbol::MountSurveyorII => MountSymbol::lemma_tag_mount_surveyor_i_i(),
            MountSymbol::MountSurveyorIII => MountSymbol::lemma_tag_mount_surveyor_i_i_i(),
            MountSymbol::MountSensorArrayI => MountSymbol::lemma_tag_mount_sensor_array_i(),
            MountSymbol::MountSensorArrayII => MountSymbol::lemma_tag_mount_sensor_array_i_i(),
            MountSymbol::MountSensorArrayIII => MountSymbol::lemma_tag_mount_sensor_array_i_i_i(),
            MountSymbol::MountMiningLaserI => MountSymbol::lemma_tag_mount_mining_laser_i(),
            MountSymbol::MountMiningLaserII => MountSymbol::lemma_tag_mount_mining_laser_i_i(),
            MountSymbol::MountMiningLaserIII => MountSymbol::lemma_tag_mount_mining_laser_i_i_i(),
            MountSymbol::MountLaserCannonI => MountSymbol::lemma_tag_mount_laser_cannon_i(),
            MountSymbol::MountMissileLauncherI => MountSymbol::lemma_tag_mount_missile_launcher_i(),
            MountSymbol::MountTurretI => MountSymbol::lemma_tag_mount_turret_i(),
        }
    }
}

#[derive(Debug, Clone, Copy, PartialEq, Eq, Structural)]
pub enum Role {
    Fabricator,
    Harvester,
    Hauler,
    Interceptor,
    Excavator,
    Transport,
    Repair,
    Surveyor,
    Command,
    Carrier,
    Patrol,
    Satellite,
    Explorer,
    Refinery,
}

impl DeepView for Role {
    type V = Role;

    open spec fn deep_view(&self) -> Role {
        *self
    }
}

impl Role {
    /// The wire tag of this value.
    pub open spec fn tag_spec(self) -> Seq<char> {
        match self {
            Role::Fabricator => "FABRICATOR"@,
            Role::Harvester => "HARVESTER"@,
            Role::Hauler => "HAULER"@,
            Role::Interceptor => "INTERCEPTOR"@,
            Role::Excavator => "EXCAVATOR"@,
            Role::Transport => "TRANSPORT"@,
            Role::Repair => "REPAIR"@,
            Role::Surveyor => "SURVEYOR"@,
            Role::Command => "COMMAND"@,
            Role::Carrier => "CARRIER"@,
            Role::Patrol => "PATROL"@,
            Role::Satellite => "SATELLITE"@,
            Role::Explorer => "EXPLORER"@,
            Role::Refinery => "REFINERY"@,
        }
    }

    /// The value a wire tag denotes, if any: tags are told apart by
    /// length first, then by content.
    pub open spec fn of_tag(s: Seq<char>) -> Option<Role> {
        if s.len() == 6 {
            if s == "HAULER"@ {
                Some(Role::Hauler)
            } else if s == "REPAIR"@ {
                Some(Role::Repair)
            } else if s == "PATROL"@ {
                Some(Role::Patrol)
            } else {
                None
            }
        } else if s.len() == 7 {
            if s == "COMMAND"@ {
                Some(Role::Command)
            } else if s == "CARRIER"@ {
                Some(Role::Carrier)
            } else {
                None
            }
        } else if s.len() == 8 {
            if s == "SURVEYOR"@ {
                Some(Role::Surveyor)
            } else if s == "EXPLORER"@ {
                Some(Role::Explorer)
            } else if s == "REFINERY"@ {
                Some(Role::Refinery)
            } else {
                None
            }
        } else if s.len() == 9 {
            if s == "HARVESTER"@ {
                Some(Role::Harvester)
            } else if s == "EXCAVATOR"@ {
                Some(Role::Excavator)
            } else if s == "TRANSPORT"@ {
                Some(Role::Transport)
            } else if s == "SATELLITE"@ {
                Some(Role::Satellite)
            } else {
                None
            }
        } else if s.len() == 10 {
            if s == "FABRICATOR"@ {
                Some(Role::Fabricator)
            } else {
                None
            }
        } else if s.len() == 11 {
            if s == "INTERCEPTOR"@ {
                Some(Role::Interceptor)
            } else {
                None
            }
        } else {
            None
        }
    }

    /// The wire tag of this value.
    pub fn as_str(&self) -> (r: &'static str)
        ensures
            r@ == self.tag_spec(),
    {
        match self {
            Role::Fabricator => "FABRICATOR",
            Role::Harvester => "HARVESTER",
            Role::Hauler => "HAULER",
            Role::Interceptor => "INTERCEPTOR",
            Role::Excavator => "EXCAVATOR",
            Role::Transport => "TRANSPORT",
            Role::Repair => "REPAIR",
            Role::Surveyor => "SURVEYOR",
            Role::Command => "COMMAND",
            Role::Carrier => "CARRIER",
            Role::Patrol => "PATROL",
            Role::Satellite => "SATELLITE",
            Role::Explorer => "EXPLORER",
            Role::Refinery => "REFINERY",
        }
    }

    /// Parse a wire tag; unknown tags are rejected.
    pub fn from_tag(s: &str) -> (r: Option<Role>)
        ensures
            r == Role::of_tag(s@),
    {
        let n = s.unicode_len();
        if n == 6 {
            if str_eq(s, "HAULER") {
                Some(Role::Hauler)
            } else if str_eq(s, "REPAIR") {
                Some(Role::Repair)
            } else if str_eq(s, "PATROL") {
                Some(Role::Patrol)
            } else {
                None
            }
        } else if n == 7 {
            if str_eq(s, "COMMAND") {
                Some(Role::Command)
            } else if str_eq(s, "CARRIER") {
                Some(Role::Carrier)
            } else {
                None
            }
        } else if n == 8 {
            if str_eq(s, "SURVEYOR") {
                Some(Role::Surveyor)
            } else if str_eq(s, "EXPLORER") {
                Some(Role::Explorer)
            } else if str_eq(s, "REFINERY") {
                Some(Role::Refinery)
            } else {
                None
            }
        } else if n == 9 {
            if str_eq(s, "HARVESTER") {
                Some(Role::Harvester)
            } else if str_eq(s, "EXCAVATOR") {
                Some(Role::Excavator)
            } else if str_eq(s, "TRANSPORT") {
                Some(Role::Transport)
            } else if str_eq(s, "SATELLITE") {
                Some(Role::Satellite)
            } else {
                None
            }
        } else if n == 10 {
            if str_eq(s, "FABRICATOR") {
                Some(Role::Fabricator)
            } else {
                None
            }
        } else if n == 11 {
            if str_eq(s, "INTERCEPTOR") {
                Some(Role::Interceptor)
            } else {
                None
            }
        } else {
            None
        }
    }

    proof fn lemma_tag_fabricator()
        ensures
            Role::of_tag("FABRICATOR"@) == Some(Role::Fabricator),
    {
        reveal_strlit("FABRICATOR");
    }

    proof fn lemma_tag_harvester()
        ensures
            Role::of_tag("HARVESTER"@) == Some(Role::Harvester),
    {
        reveal_strlit("HARVESTER");
    }

    proof fn lemma_tag_hauler()
        ensures
            Role::of_tag("HAULER"@) == Some(Role::Hauler),
    {
        reveal_strlit("HAULER");
    }

    proof fn lemma_tag_interceptor()
        ensures
            Role::of_tag("INTERCEPTOR"@) == Some(Role::Interceptor),
    {
        reveal_strlit("INTERCEPTOR");
    }

    proof fn lemma_tag_excavator()
        ensures
            Role::of_tag("EXCAVATOR"@) == Some(Role::Excavator),
    {
        reveal_strlit("EXCAVATOR");
        reveal_strlit("HARVESTER");
        assert("EXCAVATOR"@[0] != 'H');
    }

    proof fn lemma_tag_transport()
        ensures
            Role::of_tag("TRANSPORT"@) == Some(Role::Transport),
    {
        reveal_strlit("TRANSPORT");
        reveal_strlit("HARVESTER");
        assert("TRANSPORT"@[0] != 'H');
        reveal_strlit("EXCAVATOR");
        assert("TRANSPORT"@[0] != 'E');
    }

    proof fn lemma_tag_repair()
        ensures
            Role::of_tag("REPAIR"@) == Some(Role::Repair),
    {
        reveal_strlit("REPAIR");
        reveal_strlit("HAULER");
        assert("REPAIR"@[0] != 'H');
    }

    proof fn lemma_tag_surveyor()
        ensures
            Role::of_tag("SURVEYOR"@) == Some(Role::Surveyor),
    {
        reveal_strlit("SURVEYOR");
    }

    proof fn lemma_tag_command()
        ensures
            Role::of_tag("COMMAND"@) == Some(Role::Command),
    {
        reveal_strlit("COMMAND");
    }

    proof fn lemma_tag_carrier()
        ensures
            Role::of_tag("CARRIER"@) == Some(Role::Carrier),
    {
        reveal_strlit("CARRIER");
        reveal_strlit("COMMAND");
        assert("CARRIER"@[1] != 'O');
    }

    proof fn lemma_tag_patrol()
        ensures
            Role::of_tag("PATROL"@) == Some(Role::Patrol),
    {
        reveal_strlit("PATROL");
        reveal_strlit("HAULER");
        assert("PATROL"@[0] != 'H');
        reveal_strlit("REPAIR");
        assert("PATROL"@[0] != 'R');
    }

    proof fn lemma_tag_satellite()
        ensures
            Role::of_tag("SATELLITE"@) == Some(Role::Satellite),
    {
        reveal_strlit("SATELLITE");
        reveal_strlit("HARVESTER");
        assert("SATELLITE"@[0] != 'H');
        reveal_strlit("EXCAVATOR");
        assert("SATELLITE"@[0] != 'E');
        reveal_strlit("TRANSPORT");
        assert("SATELLITE"@[0] != 'T');
    }

    proof fn lemma_tag_explorer()
        ensures
            Role::of_tag("EXPLORER"@) == Some(Role::Explorer),
    {
        reveal_strlit("EXPLORER");
        reveal_strlit("SURVEYOR");
        assert("EXPLORER"@[0] != 'S');
    }

    proof fn lemma_tag_refinery()
        ensures
            Role::of_tag("REFINERY"@) == Some(Role::Refinery),
    {
        reveal_strlit("REFINERY");
        reveal_strlit("SURVEYOR");
        assert("REFINERY"@[0] != 'S');
        reveal_strlit("EXPLORER");
        assert("REFINERY"@[0] != 'E');
    }

    /// Writing a value's tag and reading it back yields the value.
    pub proof fn lemma_tag_round_trip(self)
        ensures
            Role::of_tag(self.tag_spec()) == Some(self),
    {
        match self {
            Role::Fabricator => Role::lemma_tag_fabricator(),
            Role::Harvester => Role::lemma_tag_harvester(),
            Role::Hauler => Role::lemma_tag_hauler(),
            Role::Interceptor => Role::lemma_tag_interceptor(),
            Role::Excavator => Role::lemma_tag_excavator(),
            Role::Transport => Role::lemma_tag_transport(),
            Role::Repair => Role::lemma_tag_repair(),
            Role::Surveyor => Role::lemma_tag_surveyor(),
            Role::Command => Role::lemma_tag_command(),
            Role::Carrier => Role::lemma_tag_carrier(),
            Role::Patrol => Role::lemma_tag_patrol(),
            Role::Satellite => Role::lemma_tag_satellite(),
            Role::Explorer => Role::lemma_tag_explorer(),
            Role::Refinery => Role::lemma_tag_refinery(),
        }
    }
}

#[derive(Debug, Clone, Copy, PartialEq, Eq, Structural)]
pub enum ShipType {
    ShipProbe,
    ShipMiningDrone,
    ShipInterceptor,
    ShipLightHauler,
    ShipCommandFrigate,
    ShipExplorer,
    ShipHeavyFreighter,
    ShipLightShuttle,
    ShipOreHound,
    ShipRefiningFreighter,
}

impl DeepView for ShipType {
    type V = ShipType;

    open spec fn deep_view(&self) -> ShipType {
        *self
    }
}

impl ShipType {
    /// The wire tag of this value.
    pub open spec fn tag_spec(self) -> Seq<char> {
        match self {
            ShipType::ShipProbe => "SHIP_PROBE"@,
            ShipType::ShipMiningDrone => "SHIP_MINING_DRONE"@,
            ShipType::ShipInterceptor => "SHIP_INTERCEPTOR"@,
            ShipType::ShipLightHauler => "SHIP_LIGHT_HAULER"@,
            ShipType::ShipCommandFrigate => "SHIP_COMMAND_FRIGATE"@,
            ShipType::ShipExplorer => "SHIP_EXPLORER"@,
            ShipType::ShipHeavyFreighter => "SHIP_HEAVY_FREIGHTER"@,
            ShipType::ShipLightShuttle => "SHIP_LIGHT_SHUTTLE"@,
            ShipType::ShipOreHound => "SHIP_ORE_HOUND"@,
            ShipType::ShipRefiningFreighter => "SHIP_REFINING_FREIGHTER"@,
        }
    }

    /// The value a wire tag denotes, if any: tags are told apart by
    /// length first, then by content.
    pub open spec fn of_tag(s: Seq<char>) -> Option<ShipType> {
        if s.len() == 10 {
            if s == "SHIP_PROBE"@ {
                Some(ShipType::ShipProbe)
            } else {
                None
            }
        } else if s.len() == 13 {
            if s == "SHIP_EXPLORER"@ {
                Some(ShipType::ShipExplorer)
            } else {
                None
            }
        } else if s.len() == 14 {
            if s == "SHIP_ORE_HOUND"@ {
                Some(ShipType::ShipOreHound)
            } else {
                None
            }
        } else if s.len() == 16 {
            if s == "SHIP_INTERCEPTOR"@ {
                Some(ShipType::ShipInterceptor)
            } else {
                None
            }
        } else if s.len() == 17 {
            if s == "SHIP_MINING_DRONE"@ {
                Some(ShipType::ShipMiningDrone)
            } else if s == "SHIP_LIGHT_HAULER"@ {
                Some(ShipType::ShipLightHauler)
            } else {
                None
            }
        } else if s.len() == 18 {
            if s == "SHIP_LIGHT_SHUTTLE"@ {
                Some(ShipType::ShipLightShuttle)
            } else {
                None
            }
        } else if s.len() == 20 {
            if s == "SHIP_COMMAND_FRIGATE"@ {
                Some(ShipType::ShipCommandFrigate)
            } else if s == "SHIP_HEAVY_FREIGHTER"@ {
                Some(ShipType::ShipHeavyFreighter)
            } else {
                None
            }
        } else if s.len() == 23 {
            if s == "SHIP_REFINING_FREIGHTER"@ {
                Some(ShipType::ShipRefiningFreighter)
            } else {
                None
            }
        } else {
            None
        }
    }

    /// The wire tag of this value.
    pub fn as_str(&self) -> (r: &'static str)
        ensures
            r@ == self.tag_spec(),
    {
        match self {
            ShipType::ShipProbe => "SHIP_PROBE",
            ShipType::ShipMiningDrone => "SHIP_MINING_DRONE",
            ShipType::ShipInterceptor => "SHIP_INTERCEPTOR",
            ShipType::ShipLightHauler => "SHIP_LIGHT_HAULER",
            ShipType::ShipCommandFrigate => "SHIP_COMMAND_FRIGATE",
            ShipType::ShipExplorer => "SHIP_EXPLORER",
            ShipType::ShipHeavyFreighter => "SHIP_HEAVY_FREIGHTER",
            ShipType::ShipLightShuttle => "SHIP_LIGHT_SHUTTLE",
            ShipType::ShipOreHound => "SHIP_ORE_HOUND",
            ShipType::ShipRefiningFreighter => "SHIP_REFINING_FREIGHTER",
        }
    }

    /// Parse a wire tag; unknown tags are rejected.
    pub fn from_tag(s: &str) -> (r: Option<ShipType>)
        ensures
            r == ShipType::of_tag(s@),
    {
        let n = s.unicode_len();
        if n == 10 {
            if str_eq(s, "SHIP_PROBE") {
                Some(ShipType::ShipProbe)
            } else {
                None
            }
        } else if n == 13 {
            if str_eq(s, "SHIP_EXPLORER") {
                Some(ShipType::ShipExplorer)
            } else {
                None
            }
        } else if n == 14 {
            if str_eq(s, "SHIP_ORE_HOUND") {
                Some(ShipType::ShipOreHound)
            } else {
                None
            }
        } else if n == 16 {
            if str_eq(s, "SHIP_INTERCEPTOR") {
                Some(ShipType::ShipInterceptor)
            } else {
                None
            }
        } else if n == 17 {
            if str_eq(s, "SHIP_MINING_DRONE") {
                Some(ShipType::ShipMiningDrone)
            } else if str_eq(s, "SHIP_LIGHT_HAULER") {
                Some(ShipType::ShipLightHauler)
            } else {
                None
            }
        } else if n == 18 {
            if str_eq(s, "SHIP_LIGHT_SHUTTLE") {
                Some(ShipType::ShipLightShuttle)
            } else {
                None
            }
        } else if n == 20 {
            if str_eq(s, "SHIP_COMMAND_FRIGATE") {
                Some(ShipType::ShipCommandFrigate)
            } else if str_eq(s, "SHIP_HEAVY_FREIGHTER") {
                Some(ShipType::ShipHeavyFreighter)
            } else {
                None
            }
        } else if n == 23 {
            if str_eq(s, "SHIP_REFINING_FREIGHTER") {
                Some(ShipType::ShipRefiningFreighter)
            } else {
                None
            }
        } else {
            None
        }
    }

    /// Writing a value's tag and reading it back yields the value.
    pub proof fn lemma_tag_round_trip(self)
        ensures
            ShipType::of_tag(self.tag_spec()) == Some(self),
    {
        match self {
            ShipType::ShipProbe => {
                reveal_strlit("SHIP_PROBE");
            }
            ShipType::ShipMiningDrone => {
                reveal_strlit("SHIP_MINING_DRONE");
            }
            ShipType::ShipInterceptor => {
                reveal_strlit("SHIP_INTERCEPTOR");
            }
            ShipType::ShipLightHauler => {
                reveal_strlit("SHIP_LIGHT_HAULER");
                reveal_strlit("SHIP_MINING_DRONE");
                assert("SHIP_LIGHT_HAULER"@[5] != 'M');
            }
            ShipType::ShipCommandFrigate => {
                reveal_strlit("SHIP_COMMAND_FRIGATE");
            }
            ShipType::ShipExplorer => {
                reveal_strlit("SHIP_EXPLORER");
            }
            ShipType::ShipHeavyFreighter => {
                reveal_strlit("SHIP_HEAVY_FREIGHTER");
                reveal_strlit("SHIP_COMMAND_FRIGATE");
                assert("SHIP_HEAVY_FREIGHTER"@[5] != 'C');
            }
            ShipType::ShipLightShuttle => {
                reveal_strlit("SHIP_LIGHT_SHUTTLE");
            }
            ShipType::ShipOreHound => {
                reveal_strlit("SHIP_ORE_HOUND");
            }
            ShipType::ShipRefiningFreighter => {
                reveal_strlit("SHIP_REFINING_FREIGHTER");
            }
        }
    }
}

#[derive(Debug, Clone, Copy, PartialEq, Eq, Structural)]
pub enum SurveySize {
    Small,
    Moderate,
    Large,
}

impl DeepView for SurveySize {
    type V = SurveySize;

    open spec fn deep_view(&self) -> SurveySize {
        *self
    }
}

impl SurveySize {
    /// The wire tag of this value.
    pub open spec fn tag_spec(self) -> Seq<char> {
        match self {
            SurveySize::Small => "SMALL"@,
            SurveySize::Moderate => "MODERATE"@,
            SurveySize::Large => "LARGE"@,
        }
    }

    /// The value a wire tag denotes, if any: tags are told apart by
    /// length first, then by content.
    pub open spec fn of_tag(s: Seq<char>) -> Option<SurveySize> {
        if s.len() == 5 {
            if s == "SMALL"@ {
                Some(SurveySize::Small)
            } else if s == "LARGE"@ {
                Some(SurveySize::Large)
            } else {
                None
            }
        } else if s.len() == 8 {
            if s == "MODERATE"@ {
                Some(SurveySize::Moderate)
            } else {
                None
            }
        } else {
            None
        }
    }

    /// The wire tag of this value.
    pub fn as_str(&self) -> (r: &'static str)
        ensures
            r@ == self.tag_spec(),
    {
        match self {
            SurveySize::Small => "SMALL",
            SurveySize::Moderate => "MODERATE",
            SurveySize::Large => "LARGE",
        }
    }

    /// Parse a wire tag; unknown tags are rejected.
    pub fn from_tag(s: &str) -> (r: Option<SurveySize>)
        ensures
            r == SurveySize::of_tag(s@),
    {
        let n = s.unicode_len();
        if n == 5 {
            if str_eq(s, "SMALL") {
                Some(SurveySize::Small)
            } else if str_eq(s, "LARGE") {
                Some(SurveySize::Large)
            } else {
                None
            }
        } else if n == 8 {
            if str_eq(s, "MODERATE") {
                Some(SurveySize::Moderate)
            } else {
                None
            }
        } else {
            None
        }
    }

    /// Writing a value's tag and reading it back yields the value.
    pub proof fn lemma_tag_round_trip(self)
        ensures
            SurveySize::of_tag(self.tag_spec()) == Some(self),
    {
        match self {
            SurveySize::Small => {
                reveal_strlit("SMALL");
            }
            SurveySize::Moderate => {
                reveal_strlit("MODERATE");
            }
            SurveySize::Large => {
                reveal_strlit("LARGE");
                reveal_strlit("SMALL");
                assert("LARGE"@[0] != 'S');
            }
        }
    }
}

/// A place a route departs from or arrives at.
#[derive(Debug)]
pub struct Location {
    pub symbol: NonEmptyString,
    pub waypoint_type: WaypointType,
    pub system_symbol: NonEmptyString,
    pub x: i32,
    pub y: i32,
}

/// The mathematical view of [`Location`].
pub struct LocationV {
    pub symbol: Seq<char>,
    pub waypoint_type: WaypointType,
    pub system_symbol: Seq<char>,
    pub x: int,
    pub y: int,
}

impl DeepView for Location {
    type V = LocationV;

    open spec fn deep_view(&self) -> LocationV {
        LocationV {
            symbol: self.symbol.deep_view(),
            waypoint_type: self.waypoint_type,
            system_symbol: self.system_symbol.deep_view(),
            x: self.x as int,
            y: self.y as int,
        }
    }
}

/// Every constrained leaf of the view is within its bounds.
pub open spec fn location_wf(v: LocationV) -> bool {
    v.symbol.len() > 0
        && v.system_symbol.len() > 0
        && i32::MIN as int <= v.x && v.x <= i32::MAX as int
        && i32::MIN as int <= v.y && v.y <= i32::MAX as int
}

/// The JSON shape of a view.
pub open spec fn location_to_jv(v: LocationV) -> JsonV {
    JsonV::Obj(seq![
        ("symbol"@, JsonV::Str(v.symbol)),
        ("type"@, JsonV::Str(v.waypoint_type.tag_spec())),
        ("systemSymbol"@, JsonV::Str(v.system_symbol)),
        ("x"@, JsonV::Int(v.x)),
        ("y"@, JsonV::Int(v.y)),
    ])
}

/// Extract a view from a JSON value.
pub open spec fn location_of_jv(j: JsonV) -> Option<LocationV> {
    match j {
        JsonV::Obj(es) => location_of_obj(es),
        _ => None,
    }
}

/// Extract a view from an object's members.
pub open spec fn location_of_obj(es: Seq<(Seq<char>, JsonV)>) -> Option<LocationV> {
    match (
        get_nes(es, "symbol"@),
        (match get_str(es, "type"@) { Some(s) => WaypointType::of_tag(s), None => None }),
        get_nes(es, "systemSymbol"@),
        get_i32(es, "x"@),
        get_i32(es, "y"@),
    ) {
        (Some(symbol), Some(waypoint_type), Some(system_symbol), Some(x), Some(y)) => Some(LocationV { symbol, waypoint_type, system_symbol, x, y }),
        _ => None,
    }
}

/// Writing a well-formed view and reading it back yields the view.
pub proof fn lemma_location_round_trip(v: LocationV)
    requires
        location_wf(v),
    ensures
        location_of_jv(location_to_jv(v)) == Some(v),
{
    reveal_strlit("symbol");
    reveal_strlit("type");
    reveal_strlit("systemSymbol");
    reveal_strlit("x");
    reveal_strlit("y");
    v.waypoint_type.lemma_tag_round_trip();
    let es = location_to_jv(v)->Obj_0;
    assert(es.len() == 5);
    assert(es[0].0 == "symbol"@);
    assert(es[1].0 == "type"@);
    assert(es[2].0 == "systemSymbol"@);
    assert(es[3].0 == "x"@);
    assert(es[4].0 == "y"@);
    assert("y"@[0] != 'x');
    assert("x"@[0] == 'x');
    lemma_obj_get_at(es, 0);
    lemma_obj_get_at(es, 1);
    lemma_obj_get_at(es, 2);
    lemma_obj_get_at(es, 3);
    lemma_obj_get_at(es, 4);
}

/// The JSON shape of a well-formed view is representable: every integer
/// in it fits.
pub proof fn lemma_location_to_jv_wf(v: LocationV)
    requires
        location_wf(v),
    ensures
        jv_wf(location_to_jv(v)),
{
    let es = location_to_jv(v)->Obj_0;
    assert forall|i: int| 0 <= i < es.len() implies jv_wf((#[trigger] es[i]).1) by {
        assert(jv_wf(es[0].1));
        assert(jv_wf(es[1].1));
        assert(jv_wf(es[2].1));
        assert(jv_wf(es[3].1));
        assert(jv_wf(es[4].1));
    }
}

impl Location {
    /// Encode this value as a JSON object.
    pub fn to_json(&self) -> (r: Json)
        ensures
            jv(r) == location_to_jv(self.deep_view()),
    {
        let mut entries: Vec<(String, Json)> = Vec::new();
        entries.push((String::from_str("symbol"), nes_json(&self.symbol)));
        entries.push((String::from_str("type"), Json::Str(String::from_str(self.waypoint_type.as_str()))));
        entries.push((String::from_str("systemSymbol"), nes_json(&self.system_symbol)));
        entries.push((String::from_str("x"), i32_json(self.x)));
        entries.push((String::from_str("y"), i32_json(self.y)));
        proof {
            lemma_entries_view(entries@);
            let ev = entries_view(entries@);
            let target = location_to_jv(self.deep_view())->Obj_0;
            assert(entries@.len() == 5);
            assert(target.len() == 5);
            assert(entries@[0].0@ == "symbol"@);
            assert(jv(entries@[0].1) == target[0].1);
            assert(ev[0] == target[0]);
            assert(entries@[1].0@ == "type"@);
            assert(jv(entries@[1].1) == target[1].1);
            assert(ev[1] == target[1]);
            assert(entries@[2].0@ == "systemSymbol"@);
            assert(jv(entries@[2].1) == target[2].1);
            assert(ev[2] == target[2]);
            assert(entries@[3].0@ == "x"@);
            assert(jv(entries@[3].1) == target[3].1);
            assert(ev[3] == target[3]);
            assert(entries@[4].0@ == "y"@);
            assert(jv(entries@[4].1) == target[4].1);
            assert(ev[4] == target[4]);
            assert(ev =~= target);
        }
        Json::Obj(entries)
    }

    /// Decode a value; `None` exactly when the spec-level extraction
    /// fails, and every decoded value is well formed.
    pub fn from_json(j: &Json) -> (r: Option<Location>)
        ensures
            match r {
                Some(v) => location_of_jv(jv(*j)) == Some(v.deep_view()) && location_wf(v.deep_view()),
                None => location_of_jv(jv(*j)) is None,
            },
    {
        let entries = match j {
            Json::Obj(entries) => entries,
            _ => { return None; }
        };
        proof {
            assert(*j == Json::Obj(*entries));
        }
        let symbol = match json_get_nes(entries, "symbol") { Some(v) => v, None => { return None; } };
        let waypoint_type = match json_get_str(entries, "type") {
            Some(s) => match WaypointType::from_tag(s.as_str()) {
                Some(v) => v,
                None => { return None; }
            },
            None => { return None; }
        };
        let system_symbol = match json_get_nes(entries, "systemSymbol") { Some(v) => v, None => { return None; } };
        let x = match json_get_i32(entries, "x") { Some(v) => v, None => { return None; } };
        let y = match json_get_i32(entries, "y") { Some(v) => v, None => { return None; } };
        Some(Location { symbol, waypoint_type, system_symbol, x, y })
    }

    /// A fresh value with the same view.
    pub fn duplicate(&self) -> (r: Self)
        ensures
            r.deep_view() == self.deep_view(),
    {
        Location {
            symbol: self.symbol.duplicate(),
            waypoint_type: self.waypoint_type,
            system_symbol: self.system_symbol.duplicate(),
            x: self.x,
            y: self.y,
        }
    }
}

/// The current route of a ship.
#[derive(Debug)]
pub struct Route {
    pub destination: Location,
    pub departure: Location,
    pub departure_time: NonEmptyString,
    pub arrival: NonEmptyString,
}

/// The mathematical view of [`Route`].
pub struct RouteV {
    pub destination: LocationV,
    pub departure: LocationV,
    pub departure_time: Seq<char>,
    pub arrival: Seq<char>,
}

impl DeepView for Route {
    type V = RouteV;

    open spec fn deep_view(&self) -> RouteV {
        RouteV {
            destination: self.destination.deep_view(),
            departure: self.departure.deep_view(),
            departure_time: self.departure_time.deep_view(),
            arrival: self.arrival.deep_view(),
        }
    }
}

/// Every constrained leaf of the view is within its bounds.
pub open spec fn route_wf(v: RouteV) -> bool {
    location_wf(v.destination)
        && location_wf(v.departure)
        && v.departure_time.len() > 0
        && v.arrival.len() > 0
}

/// The JSON shape of a view.
pub open spec fn route_to_jv(v: RouteV) -> JsonV {
    JsonV::Obj(seq![
        ("destination"@, location_to_jv(v.destination)),
        ("departure"@, location_to_jv(v.departure)),
        ("departureTime"@, JsonV::Str(v.departure_time)),
        ("arrival"@, JsonV::Str(v.arrival)),
    ])
}

/// Extract a view from a JSON value.
pub open spec fn route_of_jv(j: JsonV) -> Option<RouteV> {
    match j {
        JsonV::Obj(es) => route_of_obj(es),
        _ => None,
    }
}

/// Extract a view from an object's members.
pub open spec fn route_of_obj(es: Seq<(Seq<char>, JsonV)>) -> Option<RouteV> {
    match (
        (match obj_get(es, "destination"@) { Some(sj) => location_of_jv(sj), None => None }),
        (match obj_get(es, "departure"@) { Some(sj) => location_of_jv(sj), None => None }),
        get_nes(es, "departureTime"@),
        get_nes(es, "arrival"@),
    ) {
        (Some(destination), Some(departure), Some(departure_time), Some(arrival)) => Some(RouteV { destination, departure, departure_time, arrival }),
        _ => None,
    }
}

/// Writing a well-formed view and reading it back yields the view.
pub proof fn lemma_route_round_trip(v: RouteV)
    requires
        route_wf(v),
    ensures
        route_of_jv(route_to_jv(v)) == Some(v),
{
    reveal_strlit("destination");
    reveal_strlit("departure");
    reveal_strlit("departureTime");
    reveal_strlit("arrival");
    lemma_location_round_trip(v.destination);
    lemma_location_round_trip(v.departure);
    let es = route_to_jv(v)->Obj_0;
    assert(es.len() == 4);
    assert(es[0].0 == "destination"@);
    assert(es[1].0 == "departure"@);
    assert(es[2].0 == "departureTime"@);
    assert(es[3].0 == "arrival"@);
    lemma_obj_get_at(es, 0);
    lemma_obj_get_at(es, 1);
    lemma_obj_get_at(es, 2);
    lemma_obj_get_at(es, 3);
}

/// The JSON shape of a well-formed view is representable: every integer
/// in it fits.
pub proof fn lemma_route_to_jv_wf(v: RouteV)
    requires
        route_wf(v),
    ensures
        jv_wf(route_to_jv(v)),
{
    lemma_location_to_jv_wf(v.destination);
    lemma_location_to_jv_wf(v.departure);
    let es = route_to_jv(v)->Obj_0;
    assert forall|i: int| 0 <= i < es.len() implies jv_wf((#[trigger] es[i]).1) by {
        assert(jv_wf(es[0].1));
        assert(jv_wf(es[1].1));
        assert(jv_wf(es[2].1));
        assert(jv_wf(es[3].1));
    }
}

impl Route {
    /// Encode this value as a JSON object.
    pub fn to_json(&self) -> (r: Json)
        ensures
            jv(r) == route_to_jv(self.deep_view()),
    {
        let mut entries: Vec<(String, Json)> = Vec::new();
        entries.push((String::from_str("destination"), self.destination.to_json()));
        entries.push((String::from_str("departure"), self.departure.to_json()));
        entries.push((String::from_str("departureTime"), nes_json(&self.departure_time)));
        entries.push((String::from_str("arrival"), nes_json(&self.arrival)));
        proof {
            lemma_entries_view(entries@);
            let ev = entries_view(entries@);
            let target = route_to_jv(self.deep_view())->Obj_0;
            assert(entries@.len() == 4);
            assert(target.len() == 4);
            assert(entries@[0].0@ == "destination"@);
            assert(jv(entries@[0].1) == target[0].1);
            assert(ev[0] == target[0]);
            assert(entries@[1].0@ == "departure"@);
            assert(jv(entries@[1].1) == target[1].1);
            assert(ev[1] == target[1]);
            assert(entries@[2].0@ == "departureTime"@);
            assert(jv(entries@[2].1) == target[2].1);
            assert(ev[2] == target[2]);
            assert(entries@[3].0@ == "arrival"@);
            assert(jv(entries@[3].1) == target[3].1);
            assert(ev[3] == target[3]);
            assert(ev =~= target);
        }
        Json::Obj(entries)
    }

    /// Decode a value; `None` exactly when the spec-level extraction
    /// fails, and every decoded value is well formed.
    pub fn from_json(j: &Json) -> (r: Option<Route>)
        ensures
            match r {
                Some(v) => route_of_jv(jv(*j)) == Some(v.deep_view()) && route_wf(v.deep_view()),
                None => route_of_jv(jv(*j)) is None,
            },
    {
        let entries = match j {
            Json::Obj(entries) => entries,
            _ => { return None; }
        };
        proof {
            assert(*j == Json::Obj(*entries));
        }
        let destination = match json_get(entries, "destination") {
            Some(sj) => match Location::from_json(sj) {
                Some(v) => v,
                None => { return None; }
            },
            None => { return None; }
        };
        let departure = match json_get(entries, "departure") {
            Some(sj) => match Location::from_json(sj) {
                Some(v) => v,
                None => { return None; }
            },
            None => { return None; }
        };
        let departure_time = match json_get_nes(entries, "departureTime") { Some(v) => v, None => { return None; } };
        let arrival = match json_get_nes(entries, "arrival") { Some(v) => v, None => { return None; } };
        Some(Route { destination, departure, departure_time, arrival })
    }

    /// A fresh value with the same view.
    pub fn duplicate(&self) -> (r: Self)
        ensures
            r.deep_view() == self.deep_view(),
    {
        Route {
            destination: self.destination.duplicate(),
            departure: self.departure.duplicate(),
            departure_time: self.departure_time.duplicate(),
            arrival: self.arrival.duplicate(),
        }
    }
}

/// The navigation state of a ship.
#[derive(Debug)]
pub struct Nav {
    pub system_symbol: NonEmptyString,
    pub waypoint_symbol: NonEmptyString,
    pub route: Route,
    pub status: ShipStatus,
    pub flight_mode: FlightMode,
}

/// The mathematical view of [`Nav`].
pub struct NavV {
    pub system_symbol: Seq<char>,
    pub waypoint_symbol: Seq<char>,
    pub route: RouteV,
    pub status: ShipStatus,
    pub flight_mode: FlightMode,
}

impl DeepView for Nav {
    type V = NavV;

    open spec fn deep_view(&self) -> NavV {
        NavV {
            system_symbol: self.system_symbol.deep_view(),
            waypoint_symbol: self.waypoint_symbol.deep_view(),
            route: self.route.deep_view(),
            status: self.status,
            flight_mode: self.flight_mode,
        }
    }
}

/// Every constrained leaf of the view is within its bounds.
pub open spec fn nav_wf(v: NavV) -> bool {
    v.system_symbol.len() > 0
        && v.waypoint_symbol.len() > 0
        && route_wf(v.route)
}

/// The JSON shape of a view.
pub open spec fn nav_to_jv(v: NavV) -> JsonV {
    JsonV::Obj(seq![
        ("systemSymbol"@, JsonV::Str(v.system_symbol)),
        ("waypointSymbol"@, JsonV::Str(v.waypoint_symbol)),
        ("route"@, route_to_jv(v.route)),
        ("status"@, JsonV::Str(v.status.tag_spec())),
        ("flightMode"@, JsonV::Str(v.flight_mode.tag_spec())),
    ])
}

/// Extract a view from a JSON value.
pub open spec fn nav_of_jv(j: JsonV) -> Option<NavV> {
    match j {
        JsonV::Obj(es) => nav_of_obj(es),
        _ => None,
    }
}

/// Extract a view from an object's members.
pub open spec fn nav_of_obj(es: Seq<(Seq<char>, JsonV)>) -> Option<NavV> {
    match (
        get_nes(es, "systemSymbol"@),
        get_nes(es, "waypointSymbol"@),
        (match obj_get(es, "route"@) { Some(sj) => route_of_jv(sj), None => None }),
        (match get_str(es, "status"@) { Some(s) => ShipStatus::of_tag(s), None => None }),
        (match get_str(es, "flightMode"@) { Some(s) => FlightMode::of_tag(s), None => None }),
    ) {
        (Some(system_symbol), Some(waypoint_symbol), Some(route), Some(status), Some(flight_mode)) => Some(NavV { system_symbol, waypoint_symbol, route, status, flight_mode }),
        _ => None,
    }
}

/// Writing a well-formed view and reading it back yields the view.
pub proof fn lemma_nav_round_trip(v: NavV)
    requires
        nav_wf(v),
    ensures
        nav_of_jv(nav_to_jv(v)) == Some(v),
{
    reveal_strlit("systemSymbol");
    reveal_strlit("waypointSymbol");
    reveal_strlit("route");
    reveal_strlit("status");
    reveal_strlit("flightMode");
    lemma_route_round_trip(v.route);
    v.status.lemma_tag_round_trip();
    v.flight_mode.lemma_tag_round_trip();
    let es = nav_to_jv(v)->Obj_0;
    assert(es.len() == 5);
    assert(es[0].0 == "systemSymbol"@);
    assert(es[1].0 == "waypointSymbol"@);
    assert(es[2].0 == "route"@);
    assert(es[3].0 == "status"@);
    assert(es[4].0 == "flightMode"@);
    lemma_obj_get_at(es, 0);
    lemma_obj_get_at(es, 1);
    lemma_obj_get_at(es, 2);
    lemma_obj_get_at(es, 3);
    lemma_obj_get_at(es, 4);
}

/// The JSON shape of a well-formed view is representable: every integer
/// in it fits.
pub proof fn lemma_nav_to_jv_wf(v: NavV)
    requires
        nav_wf(v),
    ensures
        jv_wf(nav_to_jv(v)),
{
    lemma_route_to_jv_wf(v.route);
    let es = nav_to_jv(v)->Obj_0;
    assert forall|i: int| 0 <= i < es.len() implies jv_wf((#[trigger] es[i]).1) by {
        assert(jv_wf(es[0].1));
        assert(jv_wf(es[1].1));
        assert(jv_wf(es[2].1));
        assert(jv_wf(es[3].1));
        assert(jv_wf(es[4].1));
    }
}

impl Nav {
    /// Encode this value as a JSON object.
    pub fn to_json(&self) -> (r: Json)
        ensures
            jv(r) == nav_to_jv(self.deep_view()),
    {
        let mut entries: Vec<(String, Json)> = Vec::new();
        entries.push((String::from_str("systemSymbol"), nes_json(&self.system_symbol)));
        entries.push((String::from_str("waypointSymbol"), nes_json(&self.waypoint_symbol)));
        entries.push((String::from_str("route"), self.route.to_json()));
        entries.push((String::from_str("status"), Json::Str(String::from_str(self.status.as_str()))));
        entries.push((String::from_str("flightMode"), Json::Str(String::from_str(self.flight_mode.as_str()))));
        proof {
            lemma_entries_view(entries@);
            let ev = entries_view(entries@);
            let target = nav_to_jv(self.deep_view())->Obj_0;
            assert(entries@.len() == 5);
            assert(target.len() == 5);
            assert(entries@[0].0@ == "systemSymbol"@);
            assert(jv(entries@[0].1) == target[0].1);
            assert(ev[0] == target[0]);
            assert(entries@[1].0@ == "waypointSymbol"@);
            assert(jv(entries@[1].1) == target[1].1);
            assert(ev[1] == target[1]);
            assert(entries@[2].0@ == "route"@);
            assert(jv(entries@[2].1) == target[2].1);
            assert(ev[2] == target[2]);
            assert(entries@[3].0@ == "status"@);
            assert(jv(entries@[3].1) == target[3].1);
            assert(ev[3] == target[3]);
            assert(entries@[4].0@ == "flightMode"@);
            assert(jv(entries@[4].1) == target[4].1);
            assert(ev[4] == target[4]);
            assert(ev =~= target);
        }
        Json::Obj(entries)
    }

    /// Decode a value; `None` exactly when the spec-level extraction
    /// fails, and every decoded value is well formed.
    pub fn from_json(j: &Json) -> (r: Option<Nav>)
        ensures
            match r {
                Some(v) => nav_of_jv(jv(*j)) == Some(v.deep_view()) && nav_wf(v.deep_view()),
                None => nav_of_jv(jv(*j)) is None,
            },
    {
        let entries = match j {
            Json::Obj(entries) => entries,
            _ => { return None; }
        };
        proof {
            assert(*j == Json::Obj(*entries));
        }
        let system_symbol = match json_get_nes(entries, "systemSymbol") { Some(v) => v, None => { return None; } };
        let waypoint_symbol = match json_get_nes(entries, "waypointSymbol") { Some(v) => v, None => { return None; } };
        let route = match json_get(entries, "route") {
            Some(sj) => match Route::from_json(sj) {
                Some(v) => v,
                None => { return None; }
            },
            None => { return None; }
        };
        let status = match json_get_str(entries, "status") {
            Some(s) => match ShipStatus::from_tag(s.as_str()) {
                Some(v) => v,
                None => { return None; }
            },
            None => { return None; }
        };
        let flight_mode = match json_get_str(entries, "flightMode") {
            Some(s) => match FlightMode::from_tag(s.as_str()) {
                Some(v) => v,
                None => { return None; }
            },
            None => { return None; }
        };
        Some(Nav { system_symbol, waypoint_symbol, route, status, flight_mode })
    }

    /// A fresh value with the same view.
    pub fn duplicate(&self) -> (r: Self)
        ensures
            r.deep_view() == self.deep_view(),
    {
        Nav {
            system_symbol: self.system_symbol.duplicate(),
            waypoint_symbol: self.waypoint_symbol.duplicate(),
            route: self.route.duplicate(),
            status: self.status,
            flight_mode: self.flight_mode,
        }
    }
}

/// The crew of a ship.
#[derive(Debug)]
pub struct Crew {
    pub current: i32,
    pub required: i32,
    pub capacity: i32,
    pub rotation: Rotation,
    pub morale: BoundedInt<0, 100>,
    pub wages: LowerBoundInt<0>,
}

/// The mathematical view of [`Crew`].
pub struct CrewV {
    pub current: int,
    pub required: int,
    pub capacity: int,
    pub rotation: Rotation,
    pub morale: int,
    pub wages: int,
}

impl DeepView for Crew {
    type V = CrewV;

    open spec fn deep_view(&self) -> CrewV {
        CrewV {
            current: self.current as int,
            required: self.required as int,
            capacity: self.capacity as int,
            rotation: self.rotation,
            morale: self.morale.deep_view(),
            wages: self.wages.deep_view(),
        }
    }
}

/// Every constrained leaf of the view is within its bounds.
pub open spec fn crew_wf(v: CrewV) -> bool {
    i32::MIN as int <= v.current && v.current <= i32::MAX as int
        && i32::MIN as int <= v.required && v.required <= i32::MAX as int
        && i32::MIN as int <= v.capacity && v.capacity <= i32::MAX as int
        && 0 <= v.morale && v.morale <= 100
        && 0 <= v.wages && v.wages <= i64::MAX as int
}

/// The JSON shape of a view.
pub open spec fn crew_to_jv(v: CrewV) -> JsonV {
    JsonV::Obj(seq![
        ("current"@, JsonV::Int(v.current)),
        ("required"@, JsonV::Int(v.required)),
        ("capacity"@, JsonV::Int(v.capacity)),
        ("rotation"@, JsonV::Str(v.rotation.tag_spec())),
        ("morale"@, JsonV::Int(v.morale)),
        ("wages"@, JsonV::Int(v.wages)),
    ])
}

/// Extract a view from a JSON value.
pub open spec fn crew_of_jv(j: JsonV) -> Option<CrewV> {
    match j {
        JsonV::Obj(es) => crew_of_obj(es),
        _ => None,
    }
}

/// Extract a view from an object's members.
pub open spec fn crew_of_obj(es: Seq<(Seq<char>, JsonV)>) -> Option<CrewV> {
    match (
        get_i32(es, "current"@),
        get_i32(es, "required"@),
        get_i32(es, "capacity"@),
        (match get_str(es, "rotation"@) { Some(s) => Rotation::of_tag(s), None => None }),
        get_int_range(es, "morale"@, 0, 100),
        get_int_min(es, "wages"@, 0),
    ) {
        (Some(current), Some(required), Some(capacity), Some(rotation), Some(morale), Some(wages)) => Some(CrewV { current, required, capacity, rotation, morale, wages }),
        _ => None,
    }
}

/// Writing a well-formed view and reading it back yields the view.
pub proof fn lemma_crew_round_trip(v: CrewV)
    requires
        crew_wf(v),
    ensures
        crew_of_jv(crew_to_jv(v)) == Some(v),
{
    reveal_strlit("current");
    reveal_strlit("required");
    reveal_strlit("capacity");
    reveal_strlit("rotation");
    reveal_strlit("morale");
    reveal_strlit("wages");
    v.rotation.lemma_tag_round_trip();
    let es = crew_to_jv(v)->Obj_0;
    assert(es.len() == 6);
    assert(es[0].0 == "current"@);
    assert(es[1].0 == "required"@);
    assert(es[2].0 == "capacity"@);
    assert(es[3].0 == "rotation"@);
    assert(es[4].0 == "morale"@);
    assert(es[5].0 == "wages"@);
    assert("capacity"@[0] != 'r');
    assert("required"@[0] == 'r');
    assert("rotation"@[1] != 'e');
    assert("required"@[1] == 'e');
    assert("rotation"@[0] != 'c');
    assert("capacity"@[0] == 'c');
    lemma_obj_get_at(es, 0);
    lemma_obj_get_at(es, 1);
    lemma_obj_get_at(es, 2);
    lemma_obj_get_at(es, 3);
    lemma_obj_get_at(es, 4);
    lemma_obj_get_at(es, 5);
}

/// The JSON shape of a well-formed view is representable: every integer
/// in it fits.
pub proof fn lemma_crew_to_jv_wf(v: CrewV)
    requires
        crew_wf(v),
    ensures
        jv_wf(crew_to_jv(v)),
{
    let es = crew_to_jv(v)->Obj_0;
    assert forall|i: int| 0 <= i < es.len() implies jv_wf((#[trigger] es[i]).1) by {
        assert(jv_wf(es[0].1));
        assert(jv_wf(es[1].1));
        assert(jv_wf(es[2].1));
        assert(jv_wf(es[3].1));
        assert(jv_wf(es[4].1));
        assert(jv_wf(es[5].1));
    }
}

impl Crew {
    /// Encode this value as a JSON object.
    pub fn to_json(&self) -> (r: Json)
        ensures
            jv(r) == crew_to_jv(self.deep_view()),
    {
        let mut entries: Vec<(String, Json)> = Vec::new();
        entries.push((String::from_str("current"), i32_json(self.current)));
        entries.push((String::from_str("required"), i32_json(self.required)));
        entries.push((String::from_str("capacity"), i32_json(self.capacity)));
        entries.push((String::from_str("rotation"), Json::Str(String::from_str(self.rotation.as_str()))));
        entries.push((String::from_str("morale"), bounded_json(&self.morale)));
        entries.push((String::from_str("wages"), lower_json(&self.wages)));
        proof {
            lemma_entries_view(entries@);
            let ev = entries_view(entries@);
            let target = crew_to_jv(self.deep_view())->Obj_0;
            assert(entries@.len() == 6);
            assert(target.len() == 6);
            assert(entries@[0].0@ == "current"@);
            assert(jv(entries@[0].1) == target[0].1);
            assert(ev[0] == target[0]);
            assert(entries@[1].0@ == "required"@);
            assert(jv(entries@[1].1) == target[1].1);
            assert(ev[1] == target[1]);
            assert(entries@[2].0@ == "capacity"@);
            assert(jv(entries@[2].1) == target[2].1);
            assert(ev[2] == target[2]);
            assert(entries@[3].0@ == "rotation"@);
            assert(jv(entries@[3].1) == target[3].1);
            assert(ev[3] == target[3]);
            assert(entries@[4].0@ == "morale"@);
            assert(jv(entries@[4].1) == target[4].1);
            assert(ev[4] == target[4]);
            assert(entries@[5].0@ == "wages"@);
            assert(jv(entries@[5].1) == target[5].1);
            assert(ev[5] == target[5]);
            assert(ev =~= target);
        }
        Json::Obj(entries)
    }

    /// Decode a value; `None` exactly when the spec-level extraction
    /// fails, and every decoded value is well formed.
    pub fn from_json(j: &Json) -> (r: Option<Crew>)
        ensures
            match r {
                Some(v) => crew_of_jv(jv(*j)) == Some(v.deep_view()) && crew_wf(v.deep_view()),
                None => crew_of_jv(jv(*j)) is None,
            },
    {
        let entries = match j {
            Json::Obj(entries) => entries,
            _ => { return None; }
        };
        proof {
            assert(*j == Json::Obj(*entries));
        }
        let current = match json_get_i32(entries, "current") { Some(v) => v, None => { return None; } };
        let required = match json_get_i32(entries, "required") { Some(v) => v, None => { return None; } };
        let capacity = match json_get_i32(entries, "capacity") { Some(v) => v, None => { return None; } };
        let rotation = match json_get_str(entries, "rotation") {
            Some(s) => match Rotation::from_tag(s.as_str()) {
                Some(v) => v,
                None => { return None; }
            },
            None => { return None; }
        };
        let morale = match json_get_bounded::<0, 100>(entries, "morale") { Some(v) => v, None => { return None; } };
        let wages = match json_get_lower::<0>(entries, "wages") { Some(v) => v, None => { return None; } };
        Some(Crew { current, required, capacity, rotation, morale, wages })
    }
}

/// Fuel consumed by the most recent transit.
#[derive(Debug)]
pub struct Consumed {
    pub amount: LowerBoundInt<0>,
    pub timestamp: NonEmptyString,
}

/// The mathematical view of [`Consumed`].
pub struct ConsumedV {
    pub amount: int,
    pub timestamp: Seq<char>,
}

impl DeepView for Consumed {
    type V = ConsumedV;

    open spec fn deep_view(&self) -> ConsumedV {
        ConsumedV {
            amount: self.amount.deep_view(),
            timestamp: self.timestamp.deep_view(),
        }
    }
}

/// Every constrained leaf of the view is within its bounds.
pub open spec fn consumed_wf(v: ConsumedV) -> bool {
    0 <= v.amount && v.amount <= i64::MAX as int
        && v.timestamp.len() > 0
}

/// The JSON shape of a view.
pub open spec fn consumed_to_jv(v: ConsumedV) -> JsonV {
    JsonV::Obj(seq![
        ("amount"@, JsonV::Int(v.amount)),
        ("timestamp"@, JsonV::Str(v.timestamp)),
    ])
}

/// Extract a view from a JSON value.
pub open spec fn consumed_of_jv(j: JsonV) -> Option<ConsumedV> {
    match j {
        JsonV::Obj(es) => consumed_of_obj(es),
        _ => None,
    }
}

/// Extract a view from an object's members.
pub open spec fn consumed_of_obj(es: Seq<(Seq<char>, JsonV)>) -> Option<ConsumedV> {
    match (
        get_int_min(es, "amount"@, 0),
        get_nes(es, "timestamp"@),
    ) {
        (Some(amount), Some(timestamp)) => Some(ConsumedV { amount, timestamp }),
        _ => None,
    }
}

/// Writing a well-formed view and reading it back yields the view.
pub proof fn lemma_consumed_round_trip(v: ConsumedV)
    requires
        consumed_wf(v),
    ensures
        consumed_of_jv(consumed_to_jv(v)) == Some(v),
{
    reveal_strlit("amount");
    reveal_strlit("timestamp");
    let es = consumed_to_jv(v)->Obj_0;
    assert(es.len() == 2);
    assert(es[0].0 == "amount"@);
    assert(es[1].0 == "timestamp"@);
    lemma_obj_get_at(es, 0);
    lemma_obj_get_at(es, 1);
}

/// The JSON shape of a well-formed view is representable: every integer
/// in it fits.
pub proof fn lemma_consumed_to_jv_wf(v: ConsumedV)
    requires
        consumed_wf(v),
    ensures
        jv_wf(consumed_to_jv(v)),
{
    let es = consumed_to_jv(v)->Obj_0;
    assert forall|i: int| 0 <= i < es.len() implies jv_wf((#[trigger] es[i]).1) by {
        assert(jv_wf(es[0].1));
        assert(jv_wf(es[1].1));
    }
}

impl Consumed {
    /// Encode this value as a JSON object.
    pub fn to_json(&self) -> (r: Json)
        ensures
            jv(r) == consumed_to_jv(self.deep_view()),
    {
        let mut entries: Vec<(String, Json)> = Vec::new();
        entries.push((String::from_str("amount"), lower_json(&self.amount)));
        entries.push((String::from_str("timestamp"), nes_json(&self.timestamp)));
        proof {
            lemma_entries_view(entries@);
            let ev = entries_view(entries@);
            let target = consumed_to_jv(self.deep_view())->Obj_0;
            assert(entries@.len() == 2);
            assert(target.len() == 2);
            assert(entries@[0].0@ == "amount"@);
            assert(jv(entries@[0].1) == target[0].1);
            assert(ev[0] == target[0]);
            assert(entries@[1].0@ == "timestamp"@);
            assert(jv(entries@[1].1) == target[1].1);
            assert(ev[1] == target[1]);
            assert(ev =~= target);
        }
        Json::Obj(entries)
    }

    /// Decode a value; `None` exactly when the spec-level extraction
    /// fails, and every decoded value is well formed.
    pub fn from_json(j: &Json) -> (r: Option<Consumed>)
        ensures
            match r {
                Some(v) => consumed_of_jv(jv(*j)) == Some(v.deep_view()) && consumed_wf(v.deep_view()),
                None => consumed_of_jv(jv(*j)) is None,
            },
    {
        let entries = match j {
            Json::Obj(entries) => entries,
            _ => { return None; }
        };
        proof {
            assert(*j == Json::Obj(*entries));
        }
        let amount = match json_get_lower::<0>(entries, "amount") { Some(v) => v, None => { return None; } };
        let timestamp = match json_get_nes(entries, "timestamp") { Some(v) => v, None => { return None; } };
        Some(Consumed { amount, timestamp })
    }
}

/// The fuel state of a ship.
#[derive(Debug)]
pub struct Fuel {
    pub current: LowerBoundInt<0>,
    pub capacity: LowerBoundInt<0>,
    pub consumed: Consumed,
}

/// The mathematical view of [`Fuel`].
pub struct FuelV {
    pub current: int,
    pub capacity: int,
    pub consumed: ConsumedV,
}

impl DeepView for Fuel {
    type V = FuelV;

    open spec fn deep_view(&self) -> FuelV {
        FuelV {
            current: self.current.deep_view(),
            capacity: self.capacity.deep_view(),
            consumed: self.consumed.deep_view(),
        }
    }
}

/// Every constrained leaf of the view is within its bounds.
pub open spec fn fuel_wf(v: FuelV) -> bool {
    0 <= v.current && v.current <= i64::MAX as int
        && 0 <= v.capacity && v.capacity <= i64::MAX as int
        && consumed_wf(v.consumed)
}

/// The JSON shape of a view.
pub open spec fn fuel_to_jv(v: FuelV) -> JsonV {
    JsonV::Obj(seq![
        ("current"@, JsonV::Int(v.current)),
        ("capacity"@, JsonV::Int(v.capacity)),
        ("consumed"@, consumed_to_jv(v.consumed)),
    ])
}

/// Extract a view from a JSON value.
pub open spec fn fuel_of_jv(j: JsonV) -> Option<FuelV> {
    match j {
        JsonV::Obj(es) => fuel_of_obj(es),
        _ => None,
    }
}

/// Extract a view from an object's members.
pub open spec fn fuel_of_obj(es: Seq<(Seq<char>, JsonV)>) -> Option<FuelV> {
    match (
        get_int_min(es, "current"@, 0),
        get_int_min(es, "capacity"@, 0),
        (match obj_get(es, "consumed"@) { Some(sj) => consumed_of_jv(sj), None => None }),
    ) {
        (Some(current), Some(capacity), Some(consumed)) => Some(FuelV { current, capacity, consumed }),
        _ => None,
    }
}

/// Writing a well-formed view and reading it back yields the view.
pub proof fn lemma_fuel_round_trip(v: FuelV)
    requires
        fuel_wf(v),
    ensures
        fuel_of_jv(fuel_to_jv(v)) == Some(v),
{
    reveal_strlit("current");
    reveal_strlit("capacity");
    reveal_strlit("consumed");
    lemma_consumed_round_trip(v.consumed);
    let es = fuel_to_jv(v)->Obj_0;
    assert(es.len() == 3);
    assert(es[0].0 == "current"@);
    assert(es[1].0 == "capacity"@);
    assert(es[2].0 == "consumed"@);
    assert("consumed"@[1] != 'a');
    assert("capacity"@[1] == 'a');
    lemma_obj_get_at(es, 0);
    lemma_obj_get_at(es, 1);
    lemma_obj_get_at(es, 2);
}

/// The JSON shape of a well-formed view is representable: every integer
/// in it fits.
pub proof fn lemma_fuel_to_jv_wf(v: FuelV)
    requires
        fuel_wf(v),
    ensures
        jv_wf(fuel_to_jv(v)),
{
    lemma_consumed_to_jv_wf(v.consumed);
    let es = fuel_to_jv(v)->Obj_0;
    assert forall|i: int| 0 <= i < es.len() implies jv_wf((#[trigger] es[i]).1) by {
        assert(jv_wf(es[0].1));
        assert(jv_wf(es[1].1));
        assert(jv_wf(es[2].1));
    }
}

impl Fuel {
    /// Encode this value as a JSON object.
    pub fn to_json(&self) -> (r: Json)
        ensures
            jv(r) == fuel_to_jv(self.deep_view()),
    {
        let mut entries: Vec<(String, Json)> = Vec::new();
        entries.push((String::from_str("current"), lower_json(&self.current)));
        entries.push((String::from_str("capacity"), lower_json(&self.capacity)));
        entries.push((String::from_str("consumed"), self.consumed.to_json()));
        proof {
            lemma_entries_view(entries@);
            let ev = entries_view(entries@);
            let target = fuel_to_jv(self.deep_view())->Obj_0;
            assert(entries@.len() == 3);
            assert(target.len() == 3);
            assert(entries@[0].0@ == "current"@);
            assert(jv(entries@[0].1) == target[0].1);
            assert(ev[0] == target[0]);
            assert(entries@[1].0@ == "capacity"@);
            assert(jv(entries@[1].1) == target[1].1);
            assert(ev[1] == target[1]);
            assert(entries@[2].0@ == "consumed"@);
            assert(jv(entries@[2].1) == target[2].1);
            assert(ev[2] == target[2]);
            assert(ev =~= target);
        }
        Json::Obj(entries)
    }

    /// Decode a value; `None` exactly when the spec-level extraction
    /// fails, and every decoded value is well formed.
    pub fn from_json(j: &Json) -> (r: Option<Fuel>)
        ensures
            match r {
                Some(v) => fuel_of_jv(jv(*j)) == Some(v.deep_view()) && fuel_wf(v.deep_view()),
                None => fuel_of_jv(jv(*j)) is None,
            },
    {
        let entries = match j {
            Json::Obj(entries) => entries,
            _ => { return None; }
        };
        proof {
            assert(*j == Json::Obj(*entries));
        }
        let current = match json_get_lower::<0>(entries, "current") { Some(v) => v, None => { return None; } };
        let capacity = match json_get_lower::<0>(entries, "capacity") { Some(v) => v, None => { return None; } };
        let consumed = match json_get(entries, "consumed") {
            Some(sj) => match Consumed::from_json(sj) {
                Some(v) => v,
                None => { return None; }
            },
            None => { return None; }
        };
        Some(Fuel { current, capacity, consumed })
    }
}

/// What a component needs from the ship that carries it.
#[derive(Debug)]
pub struct Requirements {
    pub power: Option<i32>,
    pub crew: Option<i32>,
    pub slots: Option<i32>,
}

/// The mathematical view of [`Requirements`].
pub struct RequirementsV {
    pub power: Option<int>,
    pub crew: Option<int>,
    pub slots: Option<int>,
}

impl DeepView for Requirements {
    type V = RequirementsV;

    open spec fn deep_view(&self) -> RequirementsV {
        RequirementsV {
            power: (match self.power { Some(n) => Some(n as int), None => None }),
            crew: (match self.crew { Some(n) => Some(n as int), None => None }),
            slots: (match self.slots { Some(n) => Some(n as int), None => None }),
        }
    }
}

/// Every constrained leaf of the view is within its bounds.
pub open spec fn requirements_wf(v: RequirementsV) -> bool {
    (match v.power { Some(x) => i32::MIN as int <= x && x <= i32::MAX as int, None => true })
        && (match v.crew { Some(x) => i32::MIN as int <= x && x <= i32::MAX as int, None => true })
        && (match v.slots { Some(x) => i32::MIN as int <= x && x <= i32::MAX as int, None => true })
}

/// The JSON shape of a view.
pub open spec fn requirements_to_jv(v: RequirementsV) -> JsonV {
    JsonV::Obj(seq![
        ("power"@, (match v.power { Some(x) => JsonV::Int(x), None => JsonV::Null })),
        ("crew"@, (match v.crew { Some(x) => JsonV::Int(x), None => JsonV::Null })),
        ("slots"@, (match v.slots { Some(x) => JsonV::Int(x), None => JsonV::Null })),
    ])
}

/// Extract a view from a JSON value.
pub open spec fn requirements_of_jv(j: JsonV) -> Option<RequirementsV> {
    match j {
        JsonV::Obj(es) => requirements_of_obj(es),
        _ => None,
    }
}

/// Extract a view from an object's members.
pub open spec fn requirements_of_obj(es: Seq<(Seq<char>, JsonV)>) -> Option<RequirementsV> {
    match (
        get_opt_i32(es, "power"@),
        get_opt_i32(es, "crew"@),
        get_opt_i32(es, "slots"@),
    ) {
        (Some(power), Some(crew), Some(slots)) => Some(RequirementsV { power, crew, slots }),
        _ => None,
    }
}

/// Writing a well-formed view and reading it back yields the view.
pub proof fn lemma_requirements_round_trip(v: RequirementsV)
    requires
        requirements_wf(v),
    ensures
        requirements_of_jv(requirements_to_jv(v)) == Some(v),
{
    reveal_strlit("power");
    reveal_strlit("crew");
    reveal_strlit("slots");
    let es = requirements_to_jv(v)->Obj_0;
    assert(es.len() == 3);
    assert(es[0].0 == "power"@);
    assert(es[1].0 == "crew"@);
    assert(es[2].0 == "slots"@);
    assert("slots"@[0] != 'p');
    assert("power"@[0] == 'p');
    lemma_obj_get_at(es, 0);
    lemma_obj_get_at(es, 1);
    lemma_obj_get_at(es, 2);
}

/// The JSON shape of a well-formed view is representable: every integer
/// in it fits.
pub proof fn lemma_requirements_to_jv_wf(v: RequirementsV)
    requires
        requirements_wf(v),
    ensures
        jv_wf(requirements_to_jv(v)),
{
    let es = requirements_to_jv(v)->Obj_0;
    assert forall|i: int| 0 <= i < es.len() implies jv_wf((#[trigger] es[i]).1) by {
        assert(jv_wf(es[0].1));
        assert(jv_wf(es[1].1));
        assert(jv_wf(es[2].1));
    }
}

impl Requirements {
    /// Encode this value as a JSON object.
    pub fn to_json(&self) -> (r: Json)
        ensures
            jv(r) == requirements_to_jv(self.deep_view()),
    {
        let mut entries: Vec<(String, Json)> = Vec::new();
        entries.push((String::from_str("power"), (match &self.power { Some(x) => i32_json(*x), None => Json::Null })));
        entries.push((String::from_str("crew"), (match &self.crew { Some(x) => i32_json(*x), None => Json::Null })));
        entries.push((String::from_str("slots"), (match &self.slots { Some(x) => i32_json(*x), None => Json::Null })));
        proof {
            lemma_entries_view(entries@);
            let ev = entries_view(entries@);
            let target = requirements_to_jv(self.deep_view())->Obj_0;
            assert(entries@.len() == 3);
            assert(target.len() == 3);
            assert(entries@[0].0@ == "power"@);
            assert(jv(entries@[0].1) == target[0].1);
            assert(ev[0] == target[0]);
            assert(entries@[1].0@ == "crew"@);
            assert(jv(entries@[1].1) == target[1].1);
            assert(ev[1] == target[1]);
            assert(entries@[2].0@ == "slots"@);
            assert(jv(entries@[2].1) == target[2].1);
            assert(ev[2] == target[2]);
            assert(ev =~= target);
        }
        Json::Obj(entries)
    }

    /// Decode a value; `None` exactly when the spec-level extraction
    /// fails, and every decoded value is well formed.
    pub fn from_json(j: &Json) -> (r: Option<Requirements>)
        ensures
            match r {
                Some(v) => requirements_of_jv(jv(*j)) == Some(v.deep_view()) && requirements_wf(v.deep_view()),
                None => requirements_of_jv(jv(*j)) is None,
            },
    {
        let entries = match j {
            Json::Obj(entries) => entries,
            _ => { return None; }
        };
        proof {
            assert(*j == Json::Obj(*entries));
        }
        let power = match json_get_opt_i32(entries, "power") { Some(v) => v, None => { return None; } };
        let crew = match json_get_opt_i32(entries, "crew") { Some(v) => v, None => { return None; } };
        let slots = match json_get_opt_i32(entries, "slots") { Some(v) => v, None => { return None; } };
        Some(Requirements { power, crew, slots })
    }
}

/// The frame of a ship.
#[derive(Debug)]
pub struct Frame {
    pub symbol: FrameSymbol,
    pub name: NonEmptyString,
    pub description: NonEmptyString,
    pub condition: BoundedInt<0, 100>,
    pub module_slots: LowerBoundInt<0>,
    pub mounting_points: LowerBoundInt<0>,
    pub fuel_capacity: LowerBoundInt<0>,
    pub requirements: Requirements,
}

/// The mathematical view of [`Frame`].
pub struct FrameV {
    pub symbol: FrameSymbol,
    pub name: Seq<char>,
    pub description: Seq<char>,
    pub condition: int,
    pub module_slots: int,
    pub mounting_points: int,
    pub fuel_capacity: int,
    pub requirements: RequirementsV,
}

impl DeepView for Frame {
    type V = FrameV;

    open spec fn deep_view(&self) -> FrameV {
        FrameV {
            symbol: self.symbol,
            name: self.name.deep_view(),
            description: self.description.deep_view(),
            condition: self.condition.deep_view(),
            module_slots: self.module_slots.deep_view(),
            mounting_points: self.mounting_points.deep_view(),
            fuel_capacity: self.fuel_capacity.deep_view(),
            requirements: self.requirements.deep_view(),
        }
    }
}

/// Every constrained leaf of the view is within its bounds.
pub open spec fn frame_wf(v: FrameV) -> bool {
    v.name.len() > 0
        && v.description.len() > 0
        && 0 <= v.condition && v.condition <= 100
        && 0 <= v.module_slots && v.module_slots <= i64::MAX as int
        && 0 <= v.mounting_points && v.mounting_points <= i64::MAX as int
        && 0 <= v.fuel_capacity && v.fuel_capacity <= i64::MAX as int
        && requirements_wf(v.requirements)
}

/// The JSON shape of a view.
pub open spec fn frame_to_jv(v: FrameV) -> JsonV {
    JsonV::Obj(seq![
        ("symbol"@, JsonV::Str(v.symbol.tag_spec())),
        ("name"@, JsonV::Str(v.name)),
        ("description"@, JsonV::Str(v.description)),
        ("condition"@, JsonV::Int(v.condition)),
        ("moduleSlots"@, JsonV::Int(v.module_slots)),
        ("mountingPoints"@, JsonV::Int(v.mounting_points)),
        ("fuelCapacity"@, JsonV::Int(v.fuel_capacity)),
        ("requirements"@, requirements_to_jv(v.requirements)),
    ])
}

/// Extract a view from a JSON value.
pub open spec fn frame_of_jv(j: JsonV) -> Option<FrameV> {
    match j {
        JsonV::Obj(es) => frame_of_obj(es),
        _ => None,
    }
}

/// Extract a view from an object's members.
pub open spec fn frame_of_obj(es: Seq<(Seq<char>, JsonV)>) -> Option<FrameV> {
    match (
        (match get_str(es, "symbol"@) { Some(s) => FrameSymbol::of_tag(s), None => None }),
        get_nes(es, "name"@),
        get_nes(es, "description"@),
        get_int_range(es, "condition"@, 0, 100),
        get_int_min(es, "moduleSlots"@, 0),
        get_int_min(es, "mountingPoints"@, 0),
        get_int_min(es, "fuelCapacity"@, 0),
        (match obj_get(es, "requirements"@) { Some(sj) => requirements_of_jv(sj), None => None }),
    ) {
        (Some(symbol), Some(name), Some(description), Some(condition), Some(module_slots), Some(mounting_points), Some(fuel_capacity), Some(requirements)) => Some(FrameV { symbol, name, description, condition, module_slots, mounting_points, fuel_capacity, requirements }),
        _ => None,
    }
}

/// Writing a well-formed view and reading it back yields the view.
pub proof fn lemma_frame_round_trip(v: FrameV)
    requires
        frame_wf(v),
    ensures
        frame_of_jv(frame_to_jv(v)) == Some(v),
{
    reveal_strlit("symbol");
    reveal_strlit("name");
    reveal_strlit("description");
    reveal_strlit("condition");
    reveal_strlit("moduleSlots");
    reveal_strlit("mountingPoints");
    reveal_strlit("fuelCapacity");
    reveal_strlit("requirements");
    v.symbol.lemma_tag_round_trip();
    lemma_requirements_round_trip(v.requirements);
    let es = frame_to_jv(v)->Obj_0;
    assert(es.len() == 8);
    assert(es[0].0 == "symbol"@);
    assert(es[1].0 == "name"@);
    assert(es[2].0 == "description"@);
    assert(es[3].0 == "condition"@);
    assert(es[4].0 == "moduleSlots"@);
    assert(es[5].0 == "mountingPoints"@);
    assert(es[6].0 == "fuelCapacity"@);
    assert(es[7].0 == "requirements"@);
    assert("moduleSlots"@[0] != 'd');
    assert("description"@[0] == 'd');
    assert("requirements"@[0] != 'f');
    assert("fuelCapacity"@[0] == 'f');
    lemma_obj_get_at(es, 0);
    lemma_obj_get_at(es, 1);
    lemma_obj_get_at(es, 2);
    lemma_obj_get_at(es, 3);
    lemma_obj_get_at(es, 4);
    lemma_obj_get_at(es, 5);
    lemma_obj_get_at(es, 6);
    lemma_obj_get_at(es, 7);
}

/// The JSON shape of a well-formed view is representable: every integer
/// in it fits.
pub proof fn lemma_frame_to_jv_wf(v: FrameV)
    requires
        frame_wf(v),
    ensures
        jv_wf(frame_to_jv(v)),
{
    lemma_requirements_to_jv_wf(v.requirements);
    let es = frame_to_jv(v)->Obj_0;
    assert forall|i: int| 0 <= i < es.len() implies jv_wf((#[trigger] es[i]).1) by {
        assert(jv_wf(es[0].1));
        assert(jv_wf(es[1].1));
        assert(jv_wf(es[2].1));
        assert(jv_wf(es[3].1));
        assert(jv_wf(es[4].1));
        assert(jv_wf(es[5].1));
        assert(jv_wf(es[6].1));
        assert(jv_wf(es[7].1));
    }
}

impl Frame {
    /// Encode this value as a JSON object.
    pub fn to_json(&self) -> (r: Json)
        ensures
            jv(r) == frame_to_jv(self.deep_view()),
    {
        let mut entries: Vec<(String, Json)> = Vec::new();
        entries.push((String::from_str("symbol"), Json::Str(String::from_str(self.symbol.as_str()))));
        entries.push((String::from_str("name"), nes_json(&self.name)));
        entries.push((String::from_str("description"), nes_json(&self.description)));
        entries.push((String::from_str("condition"), bounded_json(&self.condition)));
        entries.push((String::from_str("moduleSlots"), lower_json(&self.module_slots)));
        entries.push((String::from_str("mountingPoints"), lower_json(&self.mounting_points)));
        entries.push((String::from_str("fuelCapacity"), lower_json(&self.fuel_capacity)));
        entries.push((String::from_str("requirements"), self.requirements.to_json()));
        proof {
            lemma_entries_view(entries@);
            let ev = entries_view(entries@);
            let target = frame_to_jv(self.deep_view())->Obj_0;
            assert(entries@.len() == 8);
            assert(target.len() == 8);
            assert(entries@[0].0@ == "symbol"@);
            assert(jv(entries@[0].1) == target[0].1);
            assert(ev[0] == target[0]);
            assert(entries@[1].0@ == "name"@);
            assert(jv(entries@[1].1) == target[1].1);
            assert(ev[1] == target[1]);
            assert(entries@[2].0@ == "description"@);
            assert(jv(entries@[2].1) == target[2].1);
            assert(ev[2] == target[2]);
            assert(entries@[3].0@ == "condition"@);
            assert(jv(entries@[3].1) == target[3].1);
            assert(ev[3] == target[3]);
            assert(entries@[4].0@ == "moduleSlots"@);
            assert(jv(entries@[4].1) == target[4].1);
            assert(ev[4] == target[4]);
            assert(entries@[5].0@ == "mountingPoints"@);
            assert(jv(entries@[5].1) == target[5].1);
            assert(ev[5] == target[5]);
            assert(entries@[6].0@ == "fuelCapacity"@);
            assert(jv(entries@[6].1) == target[6].1);
            assert(ev[6] == target[6]);
            assert(entries@[7].0@ == "requirements"@);
            assert(jv(entries@[7].1) == target[7].1);
            assert(ev[7] == target[7]);
            assert(ev =~= target);
        }
        Json::Obj(entries)
    }

    /// Decode a value; `None` exactly when the spec-level extraction
    /// fails, and every decoded value is well formed.
    pub fn from_json(j: &Json) -> (r: Option<Frame>)
        ensures
            match r {
                Some(v) => frame_of_jv(jv(*j)) == Some(v.deep_view()) && frame_wf(v.deep_view()),
                None => frame_of_jv(jv(*j)) is None,
            },
    {
        let entries = match j {
            Json::Obj(entries) => entries,
            _ => { return None; }
        };
        proof {
            assert(*j == Json::Obj(*entries));
        }
        let symbol = match json_get_str(entries, "symbol") {
            Some(s) => match FrameSymbol::from_tag(s.as_str()) {
                Some(v) => v,
                None => { return None; }
            },
            None => { return None; }
        };
        let name = match json_get_nes(entries, "name") { Some(v) => v, None => { return None; } };
        let description = match json_get_nes(entries, "description") { Some(v) => v, None => { return None; } };
        let condition = match json_get_bounded::<0, 100>(entries, "condition") { Some(v) => v, None => { return None; } };
        let module_slots = match json_get_lower::<0>(entries, "moduleSlots") { Some(v) => v, None => { return None; } };
        let mounting_points = match json_get_lower::<0>(entries, "mountingPoints") { Some(v) => v, None => { return None; } };
        let fuel_capacity = match json_get_lower::<0>(entries, "fuelCapacity") { Some(v) => v, None => { return None; } };
        let requirements = match json_get(entries, "requirements") {
            Some(sj) => match Requirements::from_json(sj) {
                Some(v) => v,
                None => { return None; }
            },
            None => { return None; }
        };
        Some(Frame { symbol, name, description, condition, module_slots, mounting_points, fuel_capacity, requirements })
    }
}

/// The reactor of a ship.
#[derive(Debug)]
pub struct Reactor {
    pub symbol: ReactorSymbol,
    pub name: NonEmptyString,
    pub description: NonEmptyString,
    pub condition: BoundedInt<0, 100>,
    pub power_output: LowerBoundInt<1>,
    pub requirements: Requirements,
}

/// The mathematical view of [`Reactor`].
pub struct ReactorV {
    pub symbol: ReactorSymbol,
    pub name: Seq<char>,
    pub description: Seq<char>,
    pub condition: int,
    pub power_output: int,
    pub requirements: RequirementsV,
}

impl DeepView for Reactor {
    type V = ReactorV;

    open spec fn deep_view(&self) -> ReactorV {
        ReactorV {
            symbol: self.symbol,
            name: self.name.deep_view(),
            description: self.description.deep_view(),
            condition: self.condition.deep_view(),
            power_output: self.power_output.deep_view(),
            requirements: self.requirements.deep_view(),
        }
    }
}

/// Every constrained leaf of the view is within its bounds.
pub open spec fn reactor_wf(v: ReactorV) -> bool {
    v.name.len() > 0
        && v.description.len() > 0
        && 0 <= v.condition && v.condition <= 100
        && 1 <= v.power_output && v.power_output <= i64::MAX as int
        && requirements_wf(v.requirements)
}

/// The JSON shape of a view.
pub open spec fn reactor_to_jv(v: ReactorV) -> JsonV {
    JsonV::Obj(seq![
        ("symbol"@, JsonV::Str(v.symbol.tag_spec())),
        ("name"@, JsonV::Str(v.name)),
        ("description"@, JsonV::Str(v.description)),
        ("condition"@, JsonV::Int(v.condition)),
        ("powerOutput"@, JsonV::Int(v.power_output)),
        ("requirements"@, requirements_to_jv(v.requirements)),
    ])
}

/// Extract a view from a JSON value.
pub open spec fn reactor_of_jv(j: JsonV) -> Option<ReactorV> {
    match j {
        JsonV::Obj(es) => reactor_of_obj(es),
        _ => None,
    }
}

/// Extract a view from an object's members.
pub open spec fn reactor_of_obj(es: Seq<(Seq<char>, JsonV)>) -> Option<ReactorV> {
    match (
        (match get_str(es, "symbol"@) { Some(s) => ReactorSymbol::of_tag(s), None => None }),
        get_nes(es, "name"@),
        get_nes(es, "description"@),
        get_int_range(es, "condition"@, 0, 100),
        get_int_min(es, "powerOutput"@, 1),
        (match obj_get(es, "requirements"@) { Some(sj) => requirements_of_jv(sj), None => None }),
    ) {
        (Some(symbol), Some(name), Some(description), Some(condition), Some(power_output), Some(requirements)) => Some(ReactorV { symbol, name, description, condition, power_output, requirements }),
        _ => None,
    }
}

/// Writing a well-formed view and reading it back yields the view.
pub proof fn lemma_reactor_round_trip(v: ReactorV)
    requires
        reactor_wf(v),
    ensures
        reactor_of_jv(reactor_to_jv(v)) == Some(v),
{
    reveal_strlit("symbol");
    reveal_strlit("name");
    reveal_strlit("description");
    reveal_strlit("condition");
    reveal_strlit("powerOutput");
    reveal_strlit("requirements");
    v.symbol.lemma_tag_round_trip();
    lemma_requirements_round_trip(v.requirements);
    let es = reactor_to_jv(v)->Obj_0;
    assert(es.len() == 6);
    assert(es[0].0 == "symbol"@);
    assert(es[1].0 == "name"@);
    assert(es[2].0 == "description"@);
    assert(es[3].0 == "condition"@);
    assert(es[4].0 == "powerOutput"@);
    assert(es[5].0 == "requirements"@);
    assert("powerOutput"@[0] != 'd');
    assert("description"@[0] == 'd');
    lemma_obj_get_at(es, 0);
    lemma_obj_get_at(es, 1);
    lemma_obj_get_at(es, 2);
    lemma_obj_get_at(es, 3);
    lemma_obj_get_at(es, 4);
    lemma_obj_get_at(es, 5);
}

/// The JSON shape of a well-formed view is representable: every integer
/// in it fits.
pub proof fn lemma_reactor_to_jv_wf(v: ReactorV)
    requires
        reactor_wf(v),
    ensures
        jv_wf(reactor_to_jv(v)),
{
    lemma_requirements_to_jv_wf(v.requirements);
    let es = reactor_to_jv(v)->Obj_0;
    assert forall|i: int| 0 <= i < es.len() implies jv_wf((#[trigger] es[i]).1) by {
        assert(jv_wf(es[0].1));
        assert(jv_wf(es[1].1));
        assert(jv_wf(es[2].1));
        assert(jv_wf(es[3].1));
        assert(jv_wf(es[4].1));
        assert(jv_wf(es[5].1));
    }
}

impl Reactor {
    /// Encode this value as a JSON object.
    pub fn to_json(&self) -> (r: Json)
        ensures
            jv(r) == reactor_to_jv(self.deep_view()),
    {
        let mut entries: Vec<(String, Json)> = Vec::new();
        entries.push((String::from_str("symbol"), Json::Str(String::from_str(self.symbol.as_str()))));
        entries.push((String::from_str("name"), nes_json(&self.name)));
        entries.push((String::from_str("description"), nes_json(&self.description)));
        entries.push((String::from_str("condition"), bounded_json(&self.condition)));
        entries.push((String::from_str("powerOutput"), lower_json(&self.power_output)));
        entries.push((String::from_str("requirements"), self.requirements.to_json()));
        proof {
            lemma_entries_view(entries@);
            let ev = entries_view(entries@);
            let target = reactor_to_jv(self.deep_view())->Obj_0;
            assert(entries@.len() == 6);
            assert(target.len() == 6);
            assert(entries@[0].0@ == "symbol"@);
            assert(jv(entries@[0].1) == target[0].1);
            assert(ev[0] == target[0]);
            assert(entries@[1].0@ == "name"@);
            assert(jv(entries@[1].1) == target[1].1);
            assert(ev[1] == target[1]);
            assert(entries@[2].0@ == "description"@);
            assert(jv(entries@[2].1) == target[2].1);
            assert(ev[2] == target[2]);
            assert(entries@[3].0@ == "condition"@);
            assert(jv(entries@[3].1) == target[3].1);
            assert(ev[3] == target[3]);
            assert(entries@[4].0@ == "powerOutput"@);
            assert(jv(entries@[4].1) == target[4].1);
            assert(ev[4] == target[4]);
            assert(entries@[5].0@ == "requirements"@);
            assert(jv(entries@[5].1) == target[5].1);
            assert(ev[5] == target[5]);
            assert(ev =~= target);
        }
        Json::Obj(entries)
    }

    /// Decode a value; `None` exactly when the spec-level extraction
    /// fails, and every decoded value is well formed.
    pub fn from_json(j: &Json) -> (r: Option<Reactor>)
        ensures
            match r {
                Some(v) => reactor_of_jv(jv(*j)) == Some(v.deep_view()) && reactor_wf(v.deep_view()),
                None => reactor_of_jv(jv(*j)) is None,
            },
    {
        let entries = match j {
            Json::Obj(entries) => entries,
            _ => { return None; }
        };
        proof {
            assert(*j == Json::Obj(*entries));
        }
        let symbol = match json_get_str(entries, "symbol") {
            Some(s) => match ReactorSymbol::from_tag(s.as_str()) {
                Some(v) => v,
                None => { return None; }
            },
            None => { return None; }
        };
        let name = match json_get_nes(entries, "name") { Some(v) => v, None => { return None; } };
        let description = match json_get_nes(entries, "description") { Some(v) => v, None => { return None; } };
        let condition = match json_get_bounded::<0, 100>(entries, "condition") { Some(v) => v, None => { return None; } };
        let power_output = match json_get_lower::<1>(entries, "powerOutput") { Some(v) => v, None => { return None; } };
        let requirements = match json_get(entries, "requirements") {
            Some(sj) => match Requirements::from_json(sj) {
                Some(v) => v,
                None => { return None; }
            },
            None => { return None; }
        };
        Some(Reactor { symbol, name, description, condition, power_output, requirements })
    }
}

/// The engine of a ship.
#[derive(Debug)]
pub struct Engine {
    pub symbol: EngineSymbol,
    pub name: NonEmptyString,
    pub description: NonEmptyString,
    pub condition: BoundedInt<0, 100>,
    pub speed: LowerBoundInt<1>,
    pub requirements: Requirements,
}

/// The mathematical view of [`Engine`].
pub struct EngineV {
    pub symbol: EngineSymbol,
    pub name: Seq<char>,
    pub description: Seq<char>,
    pub condition: int,
    pub speed: int,
    pub requirements: RequirementsV,
}

impl DeepView for Engine {
    type V = EngineV;

    open spec fn deep_view(&self) -> EngineV {
        EngineV {
            symbol: self.symbol,
            name: self.name.deep_view(),
            description: self.description.deep_view(),
            condition: self.condition.deep_view(),
            speed: self.speed.deep_view(),
            requirements: self.requirements.deep_view(),
        }
    }
}

/// Every constrained leaf of the view is within its bounds.
pub open spec fn engine_wf(v: EngineV) -> bool {
    v.name.len() > 0
        && v.description.len() > 0
        && 0 <= v.condition && v.condition <= 100
        && 1 <= v.speed && v.speed <= i64::MAX as int
        && requirements_wf(v.requirements)
}

/// The JSON shape of a view.
pub open spec fn engine_to_jv(v: EngineV) -> JsonV {
    JsonV::Obj(seq![
        ("symbol"@, JsonV::Str(v.symbol.tag_spec())),
        ("name"@, JsonV::Str(v.name)),
        ("description"@, JsonV::Str(v.description)),
        ("condition"@, JsonV::Int(v.condition)),
        ("speed"@, JsonV::Int(v.speed)),
        ("requirements"@, requirements_to_jv(v.requirements)),
    ])
}

/// Extract a view from a JSON value.
pub open spec fn engine_of_jv(j: JsonV) -> Option<EngineV> {
    match j {
        JsonV::Obj(es) => engine_of_obj(es),
        _ => None,
    }
}

/// Extract a view from an object's members.
pub open spec fn engine_of_obj(es: Seq<(Seq<char>, JsonV)>) -> Option<EngineV> {
    match (
        (match get_str(es, "symbol"@) { Some(s) => EngineSymbol::of_tag(s), None => None }),
        get_nes(es, "name"@),
        get_nes(es, "description"@),
        get_int_range(es, "condition"@, 0, 100),
        get_int_min(es, "speed"@, 1),
        (match obj_get(es, "requirements"@) { Some(sj) => requirements_of_jv(sj), None => None }),
    ) {
        (Some(symbol), Some(name), Some(description), Some(condition), Some(speed), Some(requirements)) => Some(EngineV { symbol, name, description, condition, speed, requirements }),
        _ => None,
    }
}

/// Writing a well-formed view and reading it back yields the view.
pub proof fn lemma_engine_round_trip(v: EngineV)
    requires
        engine_wf(v),
    ensures
        engine_of_jv(engine_to_jv(v)) == Some(v),
{
    reveal_strlit("symbol");
    reveal_strlit("name");
    reveal_strlit("description");
    reveal_strlit("condition");
    reveal_strlit("speed");
    reveal_strlit("requirements");
    v.symbol.lemma_tag_round_trip();
    lemma_requirements_round_trip(v.requirements);
    let es = engine_to_jv(v)->Obj_0;
    assert(es.len() == 6);
    assert(es[0].0 == "symbol"@);
    assert(es[1].0 == "name"@);
    assert(es[2].0 == "description"@);
    assert(es[3].0 == "condition"@);
    assert(es[4].0 == "speed"@);
    assert(es[5].0 == "requirements"@);
    lemma_obj_get_at(es, 0);
    lemma_obj_get_at(es, 1);
    lemma_obj_get_at(es, 2);
    lemma_obj_get_at(es, 3);
    lemma_obj_get_at(es, 4);
    lemma_obj_get_at(es, 5);
}

/// The JSON shape of a well-formed view is representable: every integer
/// in it fits.
pub proof fn lemma_engine_to_jv_wf(v: EngineV)
    requires
        engine_wf(v),
    ensures
        jv_wf(engine_to_jv(v)),
{
    lemma_requirements_to_jv_wf(v.requirements);
    let es = engine_to_jv(v)->Obj_0;
    assert forall|i: int| 0 <= i < es.len() implies jv_wf((#[trigger] es[i]).1) by {
        assert(jv_wf(es[0].1));
        assert(jv_wf(es[1].1));
        assert(jv_wf(es[2].1));
        assert(jv_wf(es[3].1));
        assert(jv_wf(es[4].1));
        assert(jv_wf(es[5].1));
    }
}

impl Engine {
    /// Encode this value as a JSON object.
    pub fn to_json(&self) -> (r: Json)
        ensures
            jv(r) == engine_to_jv(self.deep_view()),
    {
        let mut entries: Vec<(String, Json)> = Vec::new();
        entries.push((String::from_str("symbol"), Json::Str(String::from_str(self.symbol.as_str()))));
        entries.push((String::from_str("name"), nes_json(&self.name)));
        entries.push((String::from_str("description"), nes_json(&self.description)));
        entries.push((String::from_str("condition"), bounded_json(&self.condition)));
        entries.push((String::from_str("speed"), lower_json(&self.speed)));
        entries.push((String::from_str("requirements"), self.requirements.to_json()));
        proof {
            lemma_entries_view(entries@);
            let ev = entries_view(entries@);
            let target = engine_to_jv(self.deep_view())->Obj_0;
            assert(entries@.len() == 6);
            assert(target.len() == 6);
            assert(entries@[0].0@ == "symbol"@);
            assert(jv(entries@[0].1) == target[0].1);
            assert(ev[0] == target[0]);
            assert(entries@[1].0@ == "name"@);
            assert(jv(entries@[1].1) == target[1].1);
            assert(ev[1] == target[1]);
            assert(entries@[2].0@ == "description"@);
            assert(jv(entries@[2].1) == target[2].1);
            assert(ev[2] == target[2]);
            assert(entries@[3].0@ == "condition"@);
            assert(jv(entries@[3].1) == target[3].1);
            assert(ev[3] == target[3]);
            assert(entries@[4].0@ == "speed"@);
            assert(jv(entries@[4].1) == target[4].1);
            assert(ev[4] == target[4]);
            assert(entries@[5].0@ == "requirements"@);
            assert(jv(entries@[5].1) == target[5].1);
            assert(ev[5] == target[5]);
            assert(ev =~= target);
        }
        Json::Obj(entries)
    }

    /// Decode a value; `None` exactly when the spec-level extraction
    /// fails, and every decoded value is well formed.
    pub fn from_json(j: &Json) -> (r: Option<Engine>)
        ensures
            match r {
                Some(v) => engine_of_jv(jv(*j)) == Some(v.deep_view()) && engine_wf(v.deep_view()),
                None => engine_of_jv(jv(*j)) is None,
            },
    {
        let entries = match j {
            Json::Obj(entries) => entries,
            _ => { return None; }
        };
        proof {
            assert(*j == Json::Obj(*entries));
        }
        let symbol = match json_get_str(entries, "symbol") {
            Some(s) => match EngineSymbol::from_tag(s.as_str()) {
                Some(v) => v,
                None => { return None; }
            },
            None => { return None; }
        };
        let name = match json_get_nes(entries, "name") { Some(v) => v, None => { return None; } };
        let description = match json_get_nes(entries, "description") { Some(v) => v, None => { return None; } };
        let condition = match json_get_bounded::<0, 100>(entries, "condition") { Some(v) => v, None => { return None; } };
        let speed = match json_get_lower::<1>(entries, "speed") { Some(v) => v, None => { return None; } };
        let requirements = match json_get(entries, "requirements") {
            Some(sj) => match Requirements::from_json(sj) {
                Some(v) => v,
                None => { return None; }
            },
            None => { return None; }
        };
        Some(Engine { symbol, name, description, condition, speed, requirements })
    }
}

/// One installed module of a ship.
#[derive(Debug)]
pub struct Module {
    pub symbol: ModuleSymbol,
    pub capacity: Option<LowerBoundInt<0>>,
    pub range: Option<LowerBoundInt<0>>,
    pub name: NonEmptyString,
    pub description: NonEmptyString,
    pub requirements: Requirements,
}

/// The mathematical view of [`Module`].
pub struct ModuleV {
    pub symbol: ModuleSymbol,
    pub capacity: Option<int>,
    pub range: Option<int>,
    pub name: Seq<char>,
    pub description: Seq<char>,
    pub requirements: RequirementsV,
}

impl DeepView for Module {
    type V = ModuleV;

    open spec fn deep_view(&self) -> ModuleV {
        ModuleV {
            symbol: self.symbol,
            capacity: self.capacity.deep_view(),
            range: self.range.deep_view(),
            name: self.name.deep_view(),
            description: self.description.deep_view(),
            requirements: self.requirements.deep_view(),
        }
    }
}

/// Every constrained leaf of the view is within its bounds.
pub open spec fn module_wf(v: ModuleV) -> bool {
    (match v.capacity { Some(x) => 0 <= x && x <= i64::MAX as int, None => true })
        && (match v.range { Some(x) => 0 <= x && x <= i64::MAX as int, None => true })
        && v.name.len() > 0
        && v.description.len() > 0
        && requirements_wf(v.requirements)
}

/// The JSON shape of a view.
pub open spec fn module_to_jv(v: ModuleV) -> JsonV {
    JsonV::Obj(seq![
        ("symbol"@, JsonV::Str(v.symbol.tag_spec())),
        ("capacity"@, (match v.capacity { Some(x) => JsonV::Int(x), None => JsonV::Null })),
        ("range"@, (match v.range { Some(x) => JsonV::Int(x), None => JsonV::Null })),
        ("name"@, JsonV::Str(v.name)),
        ("description"@, JsonV::Str(v.description)),
        ("requirements"@, requirements_to_jv(v.requirements)),
    ])
}

/// Extract a view from a JSON value.
pub open spec fn module_of_jv(j: JsonV) -> Option<ModuleV> {
    match j {
        JsonV::Obj(es) => module_of_obj(es),
        _ => None,
    }
}

/// Extract a view from an object's members.
pub open spec fn module_of_obj(es: Seq<(Seq<char>, JsonV)>) -> Option<ModuleV> {
    match (
        (match get_str(es, "symbol"@) { Some(s) => ModuleSymbol::of_tag(s), None => None }),
        get_opt_int_min(es, "capacity"@, 0),
        get_opt_int_min(es, "range"@, 0),
        get_nes(es, "name"@),
        get_nes(es, "description"@),
        (match obj_get(es, "requirements"@) { Some(sj) => requirements_of_jv(sj), None => None }),
    ) {
        (Some(symbol), Some(capacity), Some(range), Some(name), Some(description), Some(requirements)) => Some(ModuleV { symbol, capacity, range, name, description, requirements }),
        _ => None,
    }
}

/// Writing a well-formed view and reading it back yields the view.
pub proof fn lemma_module_round_trip(v: ModuleV)
    requires
        module_wf(v),
    ensures
        module_of_jv(module_to_jv(v)) == Some(v),
{
    reveal_strlit("symbol");
    reveal_strlit("capacity");
    reveal_strlit("range");
    reveal_strlit("name");
    reveal_strlit("description");
    reveal_strlit("requirements");
    v.symbol.lemma_tag_round_trip();
    lemma_requirements_round_trip(v.requirements);
    let es = module_to_jv(v)->Obj_0;
    assert(es.len() == 6);
    assert(es[0].0 == "symbol"@);
    assert(es[1].0 == "capacity"@);
    assert(es[2].0 == "range"@);
    assert(es[3].0 == "name"@);
    assert(es[4].0 == "description"@);
    assert(es[5].0 == "requirements"@);
    lemma_obj_get_at(es, 0);
    lemma_obj_get_at(es, 1);
    lemma_obj_get_at(es, 2);
    lemma_obj_get_at(es, 3);
    lemma_obj_get_at(es, 4);
    lemma_obj_get_at(es, 5);
}

/// The JSON shape of a well-formed view is representable: every integer
/// in it fits.
pub proof fn lemma_module_to_jv_wf(v: ModuleV)
    requires
        module_wf(v),
    ensures
        jv_wf(module_to_jv(v)),
{
    lemma_requirements_to_jv_wf(v.requirements);
    let es = module_to_jv(v)->Obj_0;
    assert forall|i: int| 0 <= i < es.len() implies jv_wf((#[trigger] es[i]).1) by {
        assert(jv_wf(es[0].1));
        assert(jv_wf(es[1].1));
        assert(jv_wf(es[2].1));
        assert(jv_wf(es[3].1));
        assert(jv_wf(es[4].1));
        assert(jv_wf(es[5].1));
    }
}

impl Module {
    /// Encode this value as a JSON object.
    pub fn to_json(&self) -> (r: Json)
        ensures
            jv(r) == module_to_jv(self.deep_view()),
    {
        let mut entries: Vec<(String, Json)> = Vec::new();
        entries.push((String::from_str("symbol"), Json::Str(String::from_str(self.symbol.as_str()))));
        entries.push((String::from_str("capacity"), (match &self.capacity { Some(x) => lower_json(x), None => Json::Null })));
        entries.push((String::from_str("range"), (match &self.range { Some(x) => lower_json(x), None => Json::Null })));
        entries.push((String::from_str("name"), nes_json(&self.name)));
        entries.push((String::from_str("description"), nes_json(&self.description)));
        entries.push((String::from_str("requirements"), self.requirements.to_json()));
        proof {
            lemma_entries_view(entries@);
            let ev = entries_view(entries@);
            let target = module_to_jv(self.deep_view())->Obj_0;
            assert(entries@.len() == 6);
            assert(target.len() == 6);
            assert(entries@[0].0@ == "symbol"@);
            assert(jv(entries@[0].1) == target[0].1);
            assert(ev[0] == target[0]);
            assert(entries@[1].0@ == "capacity"@);
            assert(jv(entries@[1].1) == target[1].1);
            assert(ev[1] == target[1]);
            assert(entries@[2].0@ == "range"@);
            assert(jv(entries@[2].1) == target[2].1);
            assert(ev[2] == target[2]);
            assert(entries@[3].0@ == "name"@);
            assert(jv(entries@[3].1) == target[3].1);
            assert(ev[3] == target[3]);
            assert(entries@[4].0@ == "description"@);
            assert(jv(entries@[4].1) == target[4].1);
            assert(ev[4] == target[4]);
            assert(entries@[5].0@ == "requirements"@);
            assert(jv(entries@[5].1) == target[5].1);
            assert(ev[5] == target[5]);
            assert(ev =~= target);
        }
        Json::Obj(entries)
    }

    /// Decode a value; `None` exactly when the spec-level extraction
    /// fails, and every decoded value is well formed.
    pub fn from_json(j: &Json) -> (r: Option<Module>)
        ensures
            match r {
                Some(v) => module_of_jv(jv(*j)) == Some(v.deep_view()) && module_wf(v.deep_view()),
                None => module_of_jv(jv(*j)) is None,
            },
    {
        let entries = match j {
            Json::Obj(entries) => entries,
            _ => { return None; }
        };
        proof {
            assert(*j == Json::Obj(*entries));
        }
        let symbol = match json_get_str(entries, "symbol") {
            Some(s) => match ModuleSymbol::from_tag(s.as_str()) {
                Some(v) => v,
                None => { return None; }
            },
            None => { return None; }
        };
        let capacity = match json_get_opt_lower::<0>(entries, "capacity") { Some(v) => v, None => { return None; } };
        let range = match json_get_opt_lower::<0>(entries, "range") { Some(v) => v, None => { return None; } };
        let name = match json_get_nes(entries, "name") { Some(v) => v, None => { return None; } };
        let description = match json_get_nes(entries, "description") { Some(v) => v, None => { return None; } };
        let requirements = match json_get(entries, "requirements") {
            Some(sj) => match Requirements::from_json(sj) {
                Some(v) => v,
                None => { return None; }
            },
            None => { return None; }
        };
        Some(Module { symbol, capacity, range, name, description, requirements })
    }
}

/// The JSON array elements for a sequence of values.
pub open spec fn module_seq_to_jv(vs: Seq<ModuleV>) -> Seq<JsonV>
    decreases vs.len(),
{
    if vs.len() == 0 {
        Seq::empty()
    } else {
        seq![module_to_jv(vs[0])] + module_seq_to_jv(vs.drop_first())
    }
}

/// Extract a sequence of values from JSON array elements.
pub open spec fn module_seq_of_jv(items: Seq<JsonV>) -> Option<Seq<ModuleV>>
    decreases items.len(),
{
    if items.len() == 0 {
        Some(Seq::empty())
    } else {
        match (module_of_jv(items[0]), module_seq_of_jv(items.drop_first())) {
            (Some(v), Some(vs)) => Some(seq![v] + vs),
            _ => None,
        }
    }
}

/// Writing a sequence and reading it back yields the sequence.
pub proof fn lemma_module_seq_round_trip(vs: Seq<ModuleV>)
    requires
        forall|i: int| 0 <= i < vs.len() ==> module_wf(#[trigger] vs[i]),
    ensures
        module_seq_of_jv(module_seq_to_jv(vs)) == Some(vs),
    decreases vs.len(),
{
    if vs.len() > 0 {
        lemma_module_round_trip(vs[0]);
        lemma_module_seq_round_trip(vs.drop_first());
        assert(module_seq_to_jv(vs).drop_first() =~= module_seq_to_jv(vs.drop_first()));
        assert(seq![vs[0]] + vs.drop_first() =~= vs);
    }
}

/// The JSON array of well-formed views is representable: every integer
/// in it fits.
pub proof fn lemma_module_seq_to_jv_wf(vs: Seq<ModuleV>)
    requires
        forall|i: int| 0 <= i < vs.len() ==> module_wf(#[trigger] vs[i]),
    ensures
        forall|i: int| 0 <= i < module_seq_to_jv(vs).len() ==> jv_wf(
            #[trigger] module_seq_to_jv(vs)[i],
        ),
        jv_wf(JsonV::Arr(module_seq_to_jv(vs))),
    decreases vs.len(),
{
    if vs.len() > 0 {
        lemma_module_to_jv_wf(vs[0]);
        assert forall|i: int| 0 <= i < vs.drop_first().len() implies module_wf(
            #[trigger] vs.drop_first()[i],
        ) by {
            assert(vs.drop_first()[i] == vs[i + 1]);
        }
        lemma_module_seq_to_jv_wf(vs.drop_first());
        let ws = module_seq_to_jv(vs);
        let tl = module_seq_to_jv(vs.drop_first());
        assert(ws == seq![module_to_jv(vs[0])] + tl);
        assert(jv_wf(ws[0]));
        assert(jv_wf(JsonV::Arr(tl)));
        assert forall|i: int| 0 <= i < ws.len() implies jv_wf(#[trigger] ws[i]) by {
            if i > 0 {
                assert(ws[i] == tl[i - 1]);
                assert(jv_wf(tl[i - 1]));
            }
        }
    } else {
        assert(module_seq_to_jv(vs) =~= Seq::<JsonV>::empty());
    }
}

impl Module {
    /// Encode a vector tail (from `k` on) as JSON array elements.
    pub fn vec_to_json(items: &Vec<Module>, k: usize) -> (r: Vec<Json>)
        requires
            k <= items@.len(),
        ensures
            jv_seq(r@) == module_seq_to_jv(items.deep_view().skip(k as int)),
        decreases items@.len() - k,
    {
        let ghost dv = items.deep_view();
        if k == items.len() {
            let out: Vec<Json> = Vec::new();
            proof {
                assert(out@ =~= Seq::<Json>::empty());
                assert(jv_seq(out@) =~= Seq::<JsonV>::empty());
                assert(dv.skip(k as int) =~= Seq::<ModuleV>::empty());
            }
            out
        } else {
            let mut rest = Self::vec_to_json(items, k + 1);
            let hd = items[k].to_json();
            let ghost restv = rest@;
            rest.insert(0, hd);
            proof {
                assert(rest@[0] == hd);
                assert(rest@.drop_first() =~= restv);
                assert(jv_seq(rest@) =~= seq![jv(hd)] + jv_seq(restv));
                assert(dv.skip(k as int)[0] == dv[k as int]);
                assert(dv.skip(k as int).drop_first() =~= dv.skip(k as int + 1));
                assert(jv_seq(rest@) =~= module_seq_to_jv(dv.skip(k as int)));
            }
            rest
        }
    }

    /// Encode a whole vector as a JSON array.
    pub fn vec_json(items: &Vec<Module>) -> (r: Json)
        ensures
            jv(r) == JsonV::Arr(module_seq_to_jv(items.deep_view())),
    {
        let out = Self::vec_to_json(items, 0);
        proof {
            assert(items.deep_view().skip(0) =~= items.deep_view());
        }
        Json::Arr(out)
    }

    /// Decode a vector from JSON array elements, from `k` on.
    pub fn vec_from_json(items: &Vec<Json>, k: usize) -> (r: Option<Vec<Module>>)
        requires
            k <= items@.len(),
        ensures
            match r {
                Some(vs) => module_seq_of_jv(jv_seq(items@).skip(k as int)) == Some(vs.deep_view())
                    && (forall|i: int| 0 <= i < vs.deep_view().len() ==> module_wf(#[trigger] vs.deep_view()[i])),
                None => module_seq_of_jv(jv_seq(items@).skip(k as int)) is None,
            },
        decreases items@.len() - k,
    {
        let ghost sv = jv_seq(items@);
        proof {
            lemma_jv_seq(items@);
        }
        if k == items.len() {
            let out: Vec<Module> = Vec::new();
            proof {
                assert(sv.skip(k as int) =~= Seq::<JsonV>::empty());
                assert(out.deep_view() =~= Seq::<ModuleV>::empty());
            }
            return Some(out);
        }
        proof {
            assert(sv.skip(k as int)[0] == sv[k as int]);
            assert(sv.skip(k as int).drop_first() =~= sv.skip(k as int + 1));
        }
        let hd = match Module::from_json(&items[k]) {
            Some(v) => v,
            None => { return None; }
        };
        match Self::vec_from_json(items, k + 1) {
            Some(mut vs) => {
                let ghost older = vs.deep_view();
                vs.insert(0, hd);
                proof {
                    assert(vs.deep_view()[0] == hd.deep_view());
                    assert(vs.deep_view().drop_first() =~= older);
                    assert(vs.deep_view() =~= seq![hd.deep_view()] + older);
                }
                Some(vs)
            }
            None => None,
        }
    }

    /// Decode a vector from a JSON value that must be an array.
    pub fn vec_from_json_value(j: &Json) -> (r: Option<Vec<Module>>)
        ensures
            match r {
                Some(vs) => (match jv(*j) {
                    JsonV::Arr(items) => module_seq_of_jv(items) == Some(vs.deep_view()),
                    _ => false,
                }) && (forall|i: int| 0 <= i < vs.deep_view().len() ==> module_wf(#[trigger] vs.deep_view()[i])),
                None => (match jv(*j) {
                    JsonV::Arr(items) => module_seq_of_jv(items) is None,
                    _ => true,
                }),
            },
    {
        let items = match j {
            Json::Arr(items) => items,
            _ => { return None; }
        };
        proof {
            assert(*j == Json::Arr(*items));
            assert(jv_seq(items@).skip(0) =~= jv_seq(items@));
        }
        Self::vec_from_json(items, 0)
    }
}

/// One mounted component of a ship.
#[derive(Debug)]
pub struct Mount {
    pub symbol: MountSymbol,
    pub name: NonEmptyString,
    pub description: NonEmptyString,
    pub strength: LowerBoundInt<0>,
    pub deposits: Option<Vec<Deposit>>,
    pub requirements: Requirements,
}

/// The mathematical view of [`Mount`].
pub struct MountV {
    pub symbol: MountSymbol,
    pub name: Seq<char>,
    pub description: Seq<char>,
    pub strength: int,
    pub deposits: Option<Seq<Deposit>>,
    pub requirements: RequirementsV,
}

impl DeepView for Mount {
    type V = MountV;

    open spec fn deep_view(&self) -> MountV {
        MountV {
            symbol: self.symbol,
            name: self.name.deep_view(),
            description: self.description.deep_view(),
            strength: self.strength.deep_view(),
            deposits: self.deposits.deep_view(),
            requirements: self.requirements.deep_view(),
        }
    }
}

/// Every constrained leaf of the view is within its bounds.
pub open spec fn mount_wf(v: MountV) -> bool {
    v.name.len() > 0
        && v.description.len() > 0
        && 0 <= v.strength && v.strength <= i64::MAX as int
        && requirements_wf(v.requirements)
}

/// The JSON shape of a view.
pub open spec fn mount_to_jv(v: MountV) -> JsonV {
    JsonV::Obj(seq![
        ("symbol"@, JsonV::Str(v.symbol.tag_spec())),
        ("name"@, JsonV::Str(v.name)),
        ("description"@, JsonV::Str(v.description)),
        ("strength"@, JsonV::Int(v.strength)),
        ("deposits"@, (match v.deposits { Some(x) => JsonV::Arr(deposit_seq_to_jv(x)), None => JsonV::Null })),
        ("requirements"@, requirements_to_jv(v.requirements)),
    ])
}

/// Extract a view from a JSON value.
pub open spec fn mount_of_jv(j: JsonV) -> Option<MountV> {
    match j {
        JsonV::Obj(es) => mount_of_obj(es),
        _ => None,
    }
}

/// Extract a view from an object's members.
pub open spec fn mount_of_obj(es: Seq<(Seq<char>, JsonV)>) -> Option<MountV> {
    match (
        (match get_str(es, "symbol"@) { Some(s) => MountSymbol::of_tag(s), None => None }),
        get_nes(es, "name"@),
        get_nes(es, "description"@),
        get_int_min(es, "strength"@, 0),
        (match obj_get(es, "deposits"@) { None => Some(None), Some(JsonV::Null) => Some(None), Some(JsonV::Arr(items)) => (match deposit_seq_of_jv(items) { Some(x) => Some(Some(x)), None => None }), Some(_) => None }),
        (match obj_get(es, "requirements"@) { Some(sj) => requirements_of_jv(sj), None => None }),
    ) {
        (Some(symbol), Some(name), Some(description), Some(strength), Some(deposits), Some(requirements)) => Some(MountV { symbol, name, description, strength, deposits, requirements }),
        _ => None,
    }
}

/// Writing a well-formed view and reading it back yields the view.
pub proof fn lemma_mount_round_trip(v: MountV)
    requires
        mount_wf(v),
    ensures
        mount_of_jv(mount_to_jv(v)) == Some(v),
{
    reveal_strlit("symbol");
    reveal_strlit("name");
    reveal_strlit("description");
    reveal_strlit("strength");
    reveal_strlit("deposits");
    reveal_strlit("requirements");
    v.symbol.lemma_tag_round_trip();
    match v.deposits {
        Some(x) => { lemma_deposit_seq_round_trip(x); }
        None => {}
    }
    lemma_requirements_round_trip(v.requirements);
    let es = mount_to_jv(v)->Obj_0;
    assert(es.len() == 6);
    assert(es[0].0 == "symbol"@);
    assert(es[1].0 == "name"@);
    assert(es[2].0 == "description"@);
    assert(es[3].0 == "strength"@);
    assert(es[4].0 == "deposits"@);
    assert(es[5].0 == "requirements"@);
    assert("deposits"@[0] != 's');
    assert("strength"@[0] == 's');
    lemma_obj_get_at(es, 0);
    lemma_obj_get_at(es, 1);
    lemma_obj_get_at(es, 2);
    lemma_obj_get_at(es, 3);
    lemma_obj_get_at(es, 4);
    lemma_obj_get_at(es, 5);
}

/// The JSON shape of a well-formed view is representable: every integer
/// in it fits.
pub proof fn lemma_mount_to_jv_wf(v: MountV)
    requires
        mount_wf(v),
    ensures
        jv_wf(mount_to_jv(v)),
{
    match v.deposits {
        Some(x) => lemma_deposit_seq_to_jv_wf(x),
        None => {}
    }
    lemma_requirements_to_jv_wf(v.requirements);
    let es = mount_to_jv(v)->Obj_0;
    assert forall|i: int| 0 <= i < es.len() implies jv_wf((#[trigger] es[i]).1) by {
        assert(jv_wf(es[0].1));
        assert(jv_wf(es[1].1));
        assert(jv_wf(es[2].1));
        assert(jv_wf(es[3].1));
        assert(jv_wf(es[4].1));
        assert(jv_wf(es[5].1));
    }
}

impl Mount {
    /// Encode this value as a JSON object.
    pub fn to_json(&self) -> (r: Json)
        ensures
            jv(r) == mount_to_jv(self.deep_view()),
    {
        let mut entries: Vec<(String, Json)> = Vec::new();
        entries.push((String::from_str("symbol"), Json::Str(String::from_str(self.symbol.as_str()))));
        entries.push((String::from_str("name"), nes_json(&self.name)));
        entries.push((String::from_str("description"), nes_json(&self.description)));
        entries.push((String::from_str("strength"), lower_json(&self.strength)));
        entries.push((String::from_str("deposits"), (match &self.deposits { Some(x) => Deposit::vec_json(x), None => Json::Null })));
        entries.push((String::from_str("requirements"), self.requirements.to_json()));
        proof {
            lemma_entries_view(entries@);
            let ev = entries_view(entries@);
            let target = mount_to_jv(self.deep_view())->Obj_0;
            assert(entries@.len() == 6);
            assert(target.len() == 6);
            assert(entries@[0].0@ == "symbol"@);
            assert(jv(entries@[0].1) == target[0].1);
            assert(ev[0] == target[0]);
            assert(entries@[1].0@ == "name"@);
            assert(jv(entries@[1].1) == target[1].1);
            assert(ev[1] == target[1]);
            assert(entries@[2].0@ == "description"@);
            assert(jv(entries@[2].1) == target[2].1);
            assert(ev[2] == target[2]);
            assert(entries@[3].0@ == "strength"@);
            assert(jv(entries@[3].1) == target[3].1);
            assert(ev[3] == target[3]);
            assert(entries@[4].0@ == "deposits"@);
            assert(jv(entries@[4].1) == target[4].1);
            assert(ev[4] == target[4]);
            assert(entries@[5].0@ == "requirements"@);
            assert(jv(entries@[5].1) == target[5].1);
            assert(ev[5] == target[5]);
            assert(ev =~= target);
        }
        Json::Obj(entries)
    }

    /// Decode a value; `None` exactly when the spec-level extraction
    /// fails, and every decoded value is well formed.
    pub fn from_json(j: &Json) -> (r: Option<Mount>)
        ensures
            match r {
                Some(v) => mount_of_jv(jv(*j)) == Some(v.deep_view()) && mount_wf(v.deep_view()),
                None => mount_of_jv(jv(*j)) is None,
            },
    {
        let entries = match j {
            Json::Obj(entries) => entries,
            _ => { return None; }
        };
        proof {
            assert(*j == Json::Obj(*entries));
        }
        let symbol = match json_get_str(entries, "symbol") {
            Some(s) => match MountSymbol::from_tag(s.as_str()) {
                Some(v) => v,
                None => { return None; }
            },
            None => { return None; }
        };
        let name = match json_get_nes(entries, "name") { Some(v) => v, None => { return None; } };
        let description = match json_get_nes(entries, "description") { Some(v) => v, None => { return None; } };
        let strength = match json_get_lower::<0>(entries, "strength") { Some(v) => v, None => { return None; } };
        let deposits = match json_get(entries, "deposits") {
            None => None,
            Some(sj) => match sj {
                Json::Null => None,
                _ => match Deposit::vec_from_json_value(sj) {
                    Some(v) => Some(v),
                    None => { return None; }
                },
            },
        };
        let requirements = match json_get(entries, "requirements") {
            Some(sj) => match Requirements::from_json(sj) {
                Some(v) => v,
                None => { return None; }
            },
            None => { return None; }
        };
        Some(Mount { symbol, name, description, strength, deposits, requirements })
    }
}

/// The JSON array elements for a sequence of values.
pub open spec fn mount_seq_to_jv(vs: Seq<MountV>) -> Seq<JsonV>
    decreases vs.len(),
{
    if vs.len() == 0 {
        Seq::empty()
    } else {
        seq![mount_to_jv(vs[0])] + mount_seq_to_jv(vs.drop_first())
    }
}

/// Extract a sequence of values from JSON array elements.
pub open spec fn mount_seq_of_jv(items: Seq<JsonV>) -> Option<Seq<MountV>>
    decreases items.len(),
{
    if items.len() == 0 {
        Some(Seq::empty())
    } else {
        match (mount_of_jv(items[0]), mount_seq_of_jv(items.drop_first())) {
            (Some(v), Some(vs)) => Some(seq![v] + vs),
            _ => None,
        }
    }
}

/// Writing a sequence and reading it back yields the sequence.
pub proof fn lemma_mount_seq_round_trip(vs: Seq<MountV>)
    requires
        forall|i: int| 0 <= i < vs.len() ==> mount_wf(#[trigger] vs[i]),
    ensures
        mount_seq_of_jv(mount_seq_to_jv(vs)) == Some(vs),
    decreases vs.len(),
{
    if vs.len() > 0 {
        lemma_mount_round_trip(vs[0]);
        lemma_mount_seq_round_trip(vs.drop_first());
        assert(mount_seq_to_jv(vs).drop_first() =~= mount_seq_to_jv(vs.drop_first()));
        assert(seq![vs[0]] + vs.drop_first() =~= vs);
    }
}

/// The JSON array of well-formed views is representable: every integer
/// in it fits.
pub proof fn lemma_mount_seq_to_jv_wf(vs: Seq<MountV>)
    requires
        forall|i: int| 0 <= i < vs.len() ==> mount_wf(#[trigger] vs[i]),
    ensures
        forall|i: int| 0 <= i < mount_seq_to_jv(vs).len() ==> jv_wf(
            #[trigger] mount_seq_to_jv(vs)[i],
        ),
        jv_wf(JsonV::Arr(mount_seq_to_jv(vs))),
    decreases vs.len(),
{
    if vs.len() > 0 {
        lemma_mount_to_jv_wf(vs[0]);
        assert forall|i: int| 0 <= i < vs.drop_first().len() implies mount_wf(
            #[trigger] vs.drop_first()[i],
        ) by {
            assert(vs.drop_first()[i] == vs[i + 1]);
        }
        lemma_mount_seq_to_jv_wf(vs.drop_first());
        let ws = mount_seq_to_jv(vs);
        let tl = mount_seq_to_jv(vs.drop_first());
        assert(ws == seq![mount_to_jv(vs[0])] + tl);
        assert(jv_wf(ws[0]));
        assert(jv_wf(JsonV::Arr(tl)));
        assert forall|i: int| 0 <= i < ws.len() implies jv_wf(#[trigger] ws[i]) by {
            if i > 0 {
                assert(ws[i] == tl[i - 1]);
                assert(jv_wf(tl[i - 1]));
            }
        }
    } else {
        assert(mount_seq_to_jv(vs) =~= Seq::<JsonV>::empty());
    }
}

impl Mount {
    /// Encode a vector tail (from `k` on) as JSON array elements.
    pub fn vec_to_json(items: &Vec<Mount>, k: usize) -> (r: Vec<Json>)
        requires
            k <= items@.len(),
        ensures
            jv_seq(r@) == mount_seq_to_jv(items.deep_view().skip(k as int)),
        decreases items@.len() - k,
    {
        let ghost dv = items.deep_view();
        if k == items.len() {
            let out: Vec<Json> = Vec::new();
            proof {
                assert(out@ =~= Seq::<Json>::empty());
                assert(jv_seq(out@) =~= Seq::<JsonV>::empty());
                assert(dv.skip(k as int) =~= Seq::<MountV>::empty());
            }
            out
        } else {
            let mut rest = Self::vec_to_json(items, k + 1);
            let hd = items[k].to_json();
            let ghost restv = rest@;
            rest.insert(0, hd);
            proof {
                assert(rest@[0] == hd);
                assert(rest@.drop_first() =~= restv);
                assert(jv_seq(rest@) =~= seq![jv(hd)] + jv_seq(restv));
                assert(dv.skip(k as int)[0] == dv[k as int]);
                assert(dv.skip(k as int).drop_first() =~= dv.skip(k as int + 1));
                assert(jv_seq(rest@) =~= mount_seq_to_jv(dv.skip(k as int)));
            }
            rest
        }
    }

    /// Encode a whole vector as a JSON array.
    pub fn vec_json(items: &Vec<Mount>) -> (r: Json)
        ensures
            jv(r) == JsonV::Arr(mount_seq_to_jv(items.deep_view())),
    {
        let out = Self::vec_to_json(items, 0);
        proof {
            assert(items.deep_view().skip(0) =~= items.deep_view());
        }
        Json::Arr(out)
    }

    /// Decode a vector from JSON array elements, from `k` on.
    pub fn vec_from_json(items: &Vec<Json>, k: usize) -> (r: Option<Vec<Mount>>)
        requires
            k <= items@.len(),
        ensures
            match r {
                Some(vs) => mount_seq_of_jv(jv_seq(items@).skip(k as int)) == Some(vs.deep_view())
                    && (forall|i: int| 0 <= i < vs.deep_view().len() ==> mount_wf(#[trigger] vs.deep_view()[i])),
                None => mount_seq_of_jv(jv_seq(items@).skip(k as int)) is None,
            },
        decreases items@.len() - k,
    {
        let ghost sv = jv_seq(items@);
        proof {
            lemma_jv_seq(items@);
        }
        if k == items.len() {
            let out: Vec<Mount> = Vec::new();
            proof {
                assert(sv.skip(k as int) =~= Seq::<JsonV>::empty());
                assert(out.deep_view() =~= Seq::<MountV>::empty());
            }
            return Some(out);
        }
        proof {
            assert(sv.skip(k as int)[0] == sv[k as int]);
            assert(sv.skip(k as int).drop_first() =~= sv.skip(k as int + 1));
        }
        let hd = match Mount::from_json(&items[k]) {
            Some(v) => v,
            None => { return None; }
        };
        match Self::vec_from_json(items, k + 1) {
            Some(mut vs) => {
                let ghost older = vs.deep_view();
                vs.insert(0, hd);
                proof {
                    assert(vs.deep_view()[0] == hd.deep_view());
                    assert(vs.deep_view().drop_first() =~= older);
                    assert(vs.deep_view() =~= seq![hd.deep_view()] + older);
                }
                Some(vs)
            }
            None => None,
        }
    }

    /// Decode a vector from a JSON value that must be an array.
    pub fn vec_from_json_value(j: &Json) -> (r: Option<Vec<Mount>>)
        ensures
            match r {
                Some(vs) => (match jv(*j) {
                    JsonV::Arr(items) => mount_seq_of_jv(items) == Some(vs.deep_view()),
                    _ => false,
                }) && (forall|i: int| 0 <= i < vs.deep_view().len() ==> mount_wf(#[trigger] vs.deep_view()[i])),
                None => (match jv(*j) {
                    JsonV::Arr(items) => mount_seq_of_jv(items) is None,
                    _ => true,
                }),
            },
    {
        let items = match j {
            Json::Arr(items) => items,
            _ => { return None; }
        };
        proof {
            assert(*j == Json::Arr(*items));
            assert(jv_seq(items@).skip(0) =~= jv_seq(items@));
        }
        Self::vec_from_json(items, 0)
    }
}

/// The registration of a ship.
#[derive(Debug)]
pub struct Registration {
    pub name: NonEmptyString,
    pub faction_symbol: FactionSymbol,
    pub role: Role,
}

/// The mathematical view of [`Registration`].
pub struct RegistrationV {
    pub name: Seq<char>,
    pub faction_symbol: FactionSymbol,
    pub role: Role,
}

impl DeepView for Registration {
    type V = RegistrationV;

    open spec fn deep_view(&self) -> RegistrationV {
        RegistrationV {
            name: self.name.deep_view(),
            faction_symbol: self.faction_symbol,
            role: self.role,
        }
    }
}

/// Every constrained leaf of the view is within its bounds.
pub open spec fn registration_wf(v: RegistrationV) -> bool {
    v.name.len() > 0
}

/// The JSON shape of a view.
pub open spec fn registration_to_jv(v: RegistrationV) -> JsonV {
    JsonV::Obj(seq![
        ("name"@, JsonV::Str(v.name)),
        ("factionSymbol"@, JsonV::Str(v.faction_symbol.tag_spec())),
        ("role"@, JsonV::Str(v.role.tag_spec())),
    ])
}

/// Extract a view from a JSON value.
pub open spec fn registration_of_jv(j: JsonV) -> Option<RegistrationV> {
    match j {
        JsonV::Obj(es) => registration_of_obj(es),
        _ => None,
    }
}

/// Extract a view from an object's members.
pub open spec fn registration_of_obj(es: Seq<(Seq<char>, JsonV)>) -> Option<RegistrationV> {
    match (
        get_nes(es, "name"@),
        (match get_str(es, "factionSymbol"@) { Some(s) => FactionSymbol::of_tag(s), None => None }),
        (match get_str(es, "role"@) { Some(s) => Role::of_tag(s), None => None }),
    ) {
        (Some(name), Some(faction_symbol), Some(role)) => Some(RegistrationV { name, faction_symbol, role }),
        _ => None,
    }
}

/// Writing a well-formed view and reading it back yields the view.
pub proof fn lemma_registration_round_trip(v: RegistrationV)
    requires
        registration_wf(v),
    ensures
        registration_of_jv(registration_to_jv(v)) == Some(v),
{
    reveal_strlit("name");
    reveal_strlit("factionSymbol");
    reveal_strlit("role");
    v.faction_symbol.lemma_tag_round_trip();
    v.role.lemma_tag_round_trip();
    let es = registration_to_jv(v)->Obj_0;
    assert(es.len() == 3);
    assert(es[0].0 == "name"@);
    assert(es[1].0 == "factionSymbol"@);
    assert(es[2].0 == "role"@);
    assert("role"@[0] != 'n');
    assert("name"@[0] == 'n');
    lemma_obj_get_at(es, 0);
    lemma_obj_get_at(es, 1);
    lemma_obj_get_at(es, 2);
}

/// The JSON shape of a well-formed view is representable: every integer
/// in it fits.
pub proof fn lemma_registration_to_jv_wf(v: RegistrationV)
    requires
        registration_wf(v),
    ensures
        jv_wf(registration_to_jv(v)),
{
    let es = registration_to_jv(v)->Obj_0;
    assert forall|i: int| 0 <= i < es.len() implies jv_wf((#[trigger] es[i]).1) by {
        assert(jv_wf(es[0].1));
        assert(jv_wf(es[1].1));
        assert(jv_wf(es[2].1));
    }
}

impl Registration {
    /// Encode this value as a JSON object.
    pub fn to_json(&self) -> (r: Json)
        ensures
            jv(r) == registration_to_jv(self.deep_view()),
    {
        let mut entries: Vec<(String, Json)> = Vec::new();
        entries.push((String::from_str("name"), nes_json(&self.name)));
        entries.push((String::from_str("factionSymbol"), Json::Str(String::from_str(self.faction_symbol.as_str()))));
        entries.push((String::from_str("role"), Json::Str(String::from_str(self.role.as_str()))));
        proof {
            lemma_entries_view(entries@);
            let ev = entries_view(entries@);
            let target = registration_to_jv(self.deep_view())->Obj_0;
            assert(entries@.len() == 3);
            assert(target.len() == 3);
            assert(entries@[0].0@ == "name"@);
            assert(jv(entries@[0].1) == target[0].1);
            assert(ev[0] == target[0]);
            assert(entries@[1].0@ == "factionSymbol"@);
            assert(jv(entries@[1].1) == target[1].1);
            assert(ev[1] == target[1]);
            assert(entries@[2].0@ == "role"@);
            assert(jv(entries@[2].1) == target[2].1);
            assert(ev[2] == target[2]);
            assert(ev =~= target);
        }
        Json::Obj(entries)
    }

    /// Decode a value; `None` exactly when the spec-level extraction
    /// fails, and every decoded value is well formed.
    pub fn from_json(j: &Json) -> (r: Option<Registration>)
        ensures
            match r {
                Some(v) => registration_of_jv(jv(*j)) == Some(v.deep_view()) && registration_wf(v.deep_view()),
                None => registration_of_jv(jv(*j)) is None,
            },
    {
        let entries = match j {
            Json::Obj(entries) => entries,
            _ => { return None; }
        };
        proof {
            assert(*j == Json::Obj(*entries));
        }
        let name = match json_get_nes(entries, "name") { Some(v) => v, None => { return None; } };
        let faction_symbol = match json_get_str(entries, "factionSymbol") {
            Some(s) => match FactionSymbol::from_tag(s.as_str()) {
                Some(v) => v,
                None => { return None; }
            },
            None => { return None; }
        };
        let role = match json_get_str(entries, "role") {
            Some(s) => match Role::from_tag(s.as_str()) {
                Some(v) => v,
                None => { return None; }
            },
            None => { return None; }
        };
        Some(Registration { name, faction_symbol, role })
    }
}

/// One good held in a ship's cargo.
#[derive(Debug)]
pub struct InventoryItem {
    pub symbol: NonEmptyString,
    pub name: NonEmptyString,
    pub description: NonEmptyString,
    pub units: LowerBoundInt<1>,
}

/// The mathematical view of [`InventoryItem`].
pub struct InventoryItemV {
    pub symbol: Seq<char>,
    pub name: Seq<char>,
    pub description: Seq<char>,
    pub units: int,
}

impl DeepView for InventoryItem {
    type V = InventoryItemV;

    open spec fn deep_view(&self) -> InventoryItemV {
        InventoryItemV {
            symbol: self.symbol.deep_view(),
            name: self.name.deep_view(),
            description: self.description.deep_view(),
            units: self.units.deep_view(),
        }
    }
}

/// Every constrained leaf of the view is within its bounds.
pub open spec fn inventory_item_wf(v: InventoryItemV) -> bool {
    v.symbol.len() > 0
        && v.name.len() > 0
        && v.description.len() > 0
        && 1 <= v.units && v.units <= i64::MAX as int
}

/// The JSON shape of a view.
pub open spec fn inventory_item_to_jv(v: InventoryItemV) -> JsonV {
    JsonV::Obj(seq![
        ("symbol"@, JsonV::Str(v.symbol)),
        ("name"@, JsonV::Str(v.name)),
        ("description"@, JsonV::Str(v.description)),
        ("units"@, JsonV::Int(v.units)),
    ])
}

/// Extract a view from a JSON value.
pub open spec fn inventory_item_of_jv(j: JsonV) -> Option<InventoryItemV> {
    match j {
        JsonV::Obj(es) => inventory_item_of_obj(es),
        _ => None,
    }
}

/// Extract a view from an object's members.
pub open spec fn inventory_item_of_obj(es: Seq<(Seq<char>, JsonV)>) -> Option<InventoryItemV> {
    match (
        get_nes(es, "symbol"@),
        get_nes(es, "name"@),
        get_nes(es, "description"@),
        get_int_min(es, "units"@, 1),
    ) {
        (Some(symbol), Some(name), Some(description), Some(units)) => Some(InventoryItemV { symbol, name, description, units }),
        _ => None,
    }
}

/// Writing a well-formed view and reading it back yields the view.
pub proof fn lemma_inventory_item_round_trip(v: InventoryItemV)
    requires
        inventory_item_wf(v),
    ensures
        inventory_item_of_jv(inventory_item_to_jv(v)) == Some(v),
{
    reveal_strlit("symbol");
    reveal_strlit("name");
    reveal_strlit("description");
    reveal_strlit("units");
    let es = inventory_item_to_jv(v)->Obj_0;
    assert(es.len() == 4);
    assert(es[0].0 == "symbol"@);
    assert(es[1].0 == "name"@);
    assert(es[2].0 == "description"@);
    assert(es[3].0 == "units"@);
    lemma_obj_get_at(es, 0);
    lemma_obj_get_at(es, 1);
    lemma_obj_get_at(es, 2);
    lemma_obj_get_at(es, 3);
}

/// The JSON shape of a well-formed view is representable: every integer
/// in it fits.
pub proof fn lemma_inventory_item_to_jv_wf(v: InventoryItemV)
    requires
        inventory_item_wf(v),
    ensures
        jv_wf(inventory_item_to_jv(v)),
{
    let es = inventory_item_to_jv(v)->Obj_0;
    assert forall|i: int| 0 <= i < es.len() implies jv_wf((#[trigger] es[i]).1) by {
        assert(jv_wf(es[0].1));
        assert(jv_wf(es[1].1));
        assert(jv_wf(es[2].1));
        assert(jv_wf(es[3].1));
    }
}

impl InventoryItem {
    /// Encode this value as a JSON object.
    pub fn to_json(&self) -> (r: Json)
        ensures
            jv(r) == inventory_item_to_jv(self.deep_view()),
    {
        let mut entries: Vec<(String, Json)> = Vec::new();
        entries.push((String::from_str("symbol"), nes_json(&self.symbol)));
        entries.push((String::from_str("name"), nes_json(&self.name)));
        entries.push((String::from_str("description"), nes_json(&self.description)));
        entries.push((String::from_str("units"), lower_json(&self.units)));
        proof {
            lemma_entries_view(entries@);
            let ev = entries_view(entries@);
            let target = inventory_item_to_jv(self.deep_view())->Obj_0;
            assert(entries@.len() == 4);
            assert(target.len() == 4);
            assert(entries@[0].0@ == "symbol"@);
            assert(jv(entries@[0].1) == target[0].1);
            assert(ev[0] == target[0]);
            assert(entries@[1].0@ == "name"@);
            assert(jv(entries@[1].1) == target[1].1);
            assert(ev[1] == target[1]);
            assert(entries@[2].0@ == "description"@);
            assert(jv(entries@[2].1) == target[2].1);
            assert(ev[2] == target[2]);
            assert(entries@[3].0@ == "units"@);
            assert(jv(entries@[3].1) == target[3].1);
            assert(ev[3] == target[3]);
            assert(ev =~= target);
        }
        Json::Obj(entries)
    }

    /// Decode a value; `None` exactly when the spec-level extraction
    /// fails, and every decoded value is well formed.
    pub fn from_json(j: &Json) -> (r: Option<InventoryItem>)
        ensures
            match r {
                Some(v) => inventory_item_of_jv(jv(*j)) == Some(v.deep_view()) && inventory_item_wf(v.deep_view()),
                None => inventory_item_of_jv(jv(*j)) is None,
            },
    {
        let entries = match j {
            Json::Obj(entries) => entries,
            _ => { return None; }
        };
        proof {
            assert(*j == Json::Obj(*entries));
        }
        let symbol = match json_get_nes(entries, "symbol") { Some(v) => v, None => { return None; } };
        let name = match json_get_nes(entries, "name") { Some(v) => v, None => { return None; } };
        let description = match json_get_nes(entries, "description") { Some(v) => v, None => { return None; } };
        let units = match json_get_lower::<1>(entries, "units") { Some(v) => v, None => { return None; } };
        Some(InventoryItem { symbol, name, description, units })
    }
}

/// The JSON array elements for a sequence of values.
pub open spec fn inventory_item_seq_to_jv(vs: Seq<InventoryItemV>) -> Seq<JsonV>
    decreases vs.len(),
{
    if vs.len() == 0 {
        Seq::empty()
    } else {
        seq![inventory_item_to_jv(vs[0])] + inventory_item_seq_to_jv(vs.drop_first())
    }
}

/// Extract a sequence of values from JSON array elements.
pub open spec fn inventory_item_seq_of_jv(items: Seq<JsonV>) -> Option<Seq<InventoryItemV>>
    decreases items.len(),
{
    if items.len() == 0 {
        Some(Seq::empty())
    } else {
        match (inventory_item_of_jv(items[0]), inventory_item_seq_of_jv(items.drop_first())) {
            (Some(v), Some(vs)) => Some(seq![v] + vs),
            _ => None,
        }
    }
}

/// Writing a sequence and reading it back yields the sequence.
pub proof fn lemma_inventory_item_seq_round_trip(vs: Seq<InventoryItemV>)
    requires
        forall|i: int| 0 <= i < vs.len() ==> inventory_item_wf(#[trigger] vs[i]),
    ensures
        inventory_item_seq_of_jv(inventory_item_seq_to_jv(vs)) == Some(vs),
    decreases vs.len(),
{
    if vs.len() > 0 {
        lemma_inventory_item_round_trip(vs[0]);
        lemma_inventory_item_seq_round_trip(vs.drop_first());
        assert(inventory_item_seq_to_jv(vs).drop_first() =~= inventory_item_seq_to_jv(vs.drop_first()));
        assert(seq![vs[0]] + vs.drop_first() =~= vs);
    }
}

/// The JSON array of well-formed views is representable: every integer
/// in it fits.
pub proof fn lemma_inventory_item_seq_to_jv_wf(vs: Seq<InventoryItemV>)
    requires
        forall|i: int| 0 <= i < vs.len() ==> inventory_item_wf(#[trigger] vs[i]),
    ensures
        forall|i: int| 0 <= i < inventory_item_seq_to_jv(vs).len() ==> jv_wf(
            #[trigger] inventory_item_seq_to_jv(vs)[i],
        ),
        jv_wf(JsonV::Arr(inventory_item_seq_to_jv(vs))),
    decreases vs.len(),
{
    if vs.len() > 0 {
        lemma_inventory_item_to_jv_wf(vs[0]);
        assert forall|i: int| 0 <= i < vs.drop_first().len() implies inventory_item_wf(
            #[trigger] vs.drop_first()[i],
        ) by {
            assert(vs.drop_first()[i] == vs[i + 1]);
        }
        lemma_inventory_item_seq_to_jv_wf(vs.drop_first());
        let ws = inventory_item_seq_to_jv(vs);
        let tl = inventory_item_seq_to_jv(vs.drop_first());
        assert(ws == seq![inventory_item_to_jv(vs[0])] + tl);
        assert(jv_wf(ws[0]));
        assert(jv_wf(JsonV::Arr(tl)));
        assert forall|i: int| 0 <= i < ws.len() implies jv_wf(#[trigger] ws[i]) by {
            if i > 0 {
                assert(ws[i] == tl[i - 1]);
                assert(jv_wf(tl[i - 1]));
            }
        }
    } else {
        assert(inventory_item_seq_to_jv(vs) =~= Seq::<JsonV>::empty());
    }
}

impl InventoryItem {
    /// Encode a vector tail (from `k` on) as JSON array elements.
    pub fn vec_to_json(items: &Vec<InventoryItem>, k: usize) -> (r: Vec<Json>)
        requires
            k <= items@.len(),
        ensures
            jv_seq(r@) == inventory_item_seq_to_jv(items.deep_view().skip(k as int)),
        decreases items@.len() - k,
    {
        let ghost dv = items.deep_view();
        if k == items.len() {
            let out: Vec<Json> = Vec::new();
            proof {
                assert(out@ =~= Seq::<Json>::empty());
                assert(jv_seq(out@) =~= Seq::<JsonV>::empty());
                assert(dv.skip(k as int) =~= Seq::<InventoryItemV>::empty());
            }
            out
        } else {
            let mut rest = Self::vec_to_json(items, k + 1);
            let hd = items[k].to_json();
            let ghost restv = rest@;
            rest.insert(0, hd);
            proof {
                assert(rest@[0] == hd);
                assert(rest@.drop_first() =~= restv);
                assert(jv_seq(rest@) =~= seq![jv(hd)] + jv_seq(restv));
                assert(dv.skip(k as int)[0] == dv[k as int]);
                assert(dv.skip(k as int).drop_first() =~= dv.skip(k as int + 1));
                assert(jv_seq(rest@) =~= inventory_item_seq_to_jv(dv.skip(k as int)));
            }
            rest
        }
    }

    /// Encode a whole vector as a JSON array.
    pub fn vec_json(items: &Vec<InventoryItem>) -> (r: Json)
        ensures
            jv(r) == JsonV::Arr(inventory_item_seq_to_jv(items.deep_view())),
    {
        let out = Self::vec_to_json(items, 0);
        proof {
            assert(items.deep_view().skip(0) =~= items.deep_view());
        }
        Json::Arr(out)
    }

    /// Decode a vector from JSON array elements, from `k` on.
    pub fn vec_from_json(items: &Vec<Json>, k: usize) -> (r: Option<Vec<InventoryItem>>)
        requires
            k <= items@.len(),
        ensures
            match r {
                Some(vs) => inventory_item_seq_of_jv(jv_seq(items@).skip(k as int)) == Some(vs.deep_view())
                    && (forall|i: int| 0 <= i < vs.deep_view().len() ==> inventory_item_wf(#[trigger] vs.deep_view()[i])),
                None => inventory_item_seq_of_jv(jv_seq(items@).skip(k as int)) is None,
            },
        decreases items@.len() - k,
    {
        let ghost sv = jv_seq(items@);
        proof {
            lemma_jv_seq(items@);
        }
        if k == items.len() {
            let out: Vec<InventoryItem> = Vec::new();
            proof {
                assert(sv.skip(k as int) =~= Seq::<JsonV>::empty());
                assert(out.deep_view() =~= Seq::<InventoryItemV>::empty());
            }
            return Some(out);
        }
        proof {
            assert(sv.skip(k as int)[0] == sv[k as int]);
            assert(sv.skip(k as int).drop_first() =~= sv.skip(k as int + 1));
        }
        let hd = match InventoryItem::from_json(&items[k]) {
            Some(v) => v,
            None => { return None; }
        };
        match Self::vec_from_json(items, k + 1) {
            Some(mut vs) => {
                let ghost older = vs.deep_view();
                vs.insert(0, hd);
                proof {
                    assert(vs.deep_view()[0] == hd.deep_view());
                    assert(vs.deep_view().drop_first() =~= older);
                    assert(vs.deep_view() =~= seq![hd.deep_view()] + older);
                }
                Some(vs)
            }
            None => None,
        }
    }

    /// Decode a vector from a JSON value that must be an array.
    pub fn vec_from_json_value(j: &Json) -> (r: Option<Vec<InventoryItem>>)
        ensures
            match r {
                Some(vs) => (match jv(*j) {
                    JsonV::Arr(items) => inventory_item_seq_of_jv(items) == Some(vs.deep_view()),
                    _ => false,
                }) && (forall|i: int| 0 <= i < vs.deep_view().len() ==> inventory_item_wf(#[trigger] vs.deep_view()[i])),
                None => (match jv(*j) {
                    JsonV::Arr(items) => inventory_item_seq_of_jv(items) is None,
                    _ => true,
                }),
            },
    {
        let items = match j {
            Json::Arr(items) => items,
            _ => { return None; }
        };
        proof {
            assert(*j == Json::Arr(*items));
            assert(jv_seq(items@).skip(0) =~= jv_seq(items@));
        }
        Self::vec_from_json(items, 0)
    }
}

/// The cargo hold of a ship.
#[derive(Debug)]
pub struct Cargo {
    pub capacity: LowerBoundInt<0>,
    pub units: LowerBoundInt<0>,
    pub inventory: Vec<InventoryItem>,
}

/// The mathematical view of [`Cargo`].
pub struct CargoV {
    pub capacity: int,
    pub units: int,
    pub inventory: Seq<InventoryItemV>,
}

impl DeepView for Cargo {
    type V = CargoV;

    open spec fn deep_view(&self) -> CargoV {
        CargoV {
            capacity: self.capacity.deep_view(),
            units: self.units.deep_view(),
            inventory: self.inventory.deep_view(),
        }
    }
}

/// Every constrained leaf of the view is within its bounds.
pub open spec fn cargo_wf(v: CargoV) -> bool {
    0 <= v.capacity && v.capacity <= i64::MAX as int
        && 0 <= v.units && v.units <= i64::MAX as int
        && (forall|i: int| 0 <= i < v.inventory.len() ==> inventory_item_wf((#[trigger] v.inventory[i])))
}

/// The JSON shape of a view.
pub open spec fn cargo_to_jv(v: CargoV) -> JsonV {
    JsonV::Obj(seq![
        ("capacity"@, JsonV::Int(v.capacity)),
        ("units"@, JsonV::Int(v.units)),
        ("inventory"@, JsonV::Arr(inventory_item_seq_to_jv(v.inventory))),
    ])
}

/// Extract a view from a JSON value.
pub open spec fn cargo_of_jv(j: JsonV) -> Option<CargoV> {
    match j {
        JsonV::Obj(es) => cargo_of_obj(es),
        _ => None,
    }
}

/// Extract a view from an object's members.
pub open spec fn cargo_of_obj(es: Seq<(Seq<char>, JsonV)>) -> Option<CargoV> {
    match (
        get_int_min(es, "capacity"@, 0),
        get_int_min(es, "units"@, 0),
        (match obj_get(es, "inventory"@) { Some(JsonV::Arr(items)) => inventory_item_seq_of_jv(items), _ => None }),
    ) {
        (Some(capacity), Some(units), Some(inventory)) => Some(CargoV { capacity, units, inventory }),
        _ => None,
    }
}

/// Writing a well-formed view and reading it back yields the view.
pub proof fn lemma_cargo_round_trip(v: CargoV)
    requires
        cargo_wf(v),
    ensures
        cargo_of_jv(cargo_to_jv(v)) == Some(v),
{
    reveal_strlit("capacity");
    reveal_strlit("units");
    reveal_strlit("inventory");
    lemma_inventory_item_seq_round_trip(v.inventory);
    let es = cargo_to_jv(v)->Obj_0;
    assert(es.len() == 3);
    assert(es[0].0 == "capacity"@);
    assert(es[1].0 == "units"@);
    assert(es[2].0 == "inventory"@);
    lemma_obj_get_at(es, 0);
    lemma_obj_get_at(es, 1);
    lemma_obj_get_at(es, 2);
}

/// The JSON shape of a well-formed view is representable: every integer
/// in it fits.
pub proof fn lemma_cargo_to_jv_wf(v: CargoV)
    requires
        cargo_wf(v),
    ensures
        jv_wf(cargo_to_jv(v)),
{
    lemma_inventory_item_seq_to_jv_wf(v.inventory);
    let es = cargo_to_jv(v)->Obj_0;
    assert forall|i: int| 0 <= i < es.len() implies jv_wf((#[trigger] es[i]).1) by {
        assert(jv_wf(es[0].1));
        assert(jv_wf(es[1].1));
        assert(jv_wf(es[2].1));
    }
}

impl Cargo {
    /// Encode this value as a JSON object.
    pub fn to_json(&self) -> (r: Json)
        ensures
            jv(r) == cargo_to_jv(self.deep_view()),
    {
        let mut entries: Vec<(String, Json)> = Vec::new();
        entries.push((String::from_str("capacity"), lower_json(&self.capacity)));
        entries.push((String::from_str("units"), lower_json(&self.units)));
        entries.push((String::from_str("inventory"), InventoryItem::vec_json(&self.inventory)));
        proof {
            lemma_entries_view(entries@);
            let ev = entries_view(entries@);
            let target = cargo_to_jv(self.deep_view())->Obj_0;
            assert(entries@.len() == 3);
            assert(target.len() == 3);
            assert(entries@[0].0@ == "capacity"@);
            assert(jv(entries@[0].1) == target[0].1);
            assert(ev[0] == target[0]);
            assert(entries@[1].0@ == "units"@);
            assert(jv(entries@[1].1) == target[1].1);
            assert(ev[1] == target[1]);
            assert(entries@[2].0@ == "inventory"@);
            assert(jv(entries@[2].1) == target[2].1);
            assert(ev[2] == target[2]);
            assert(ev =~= target);
        }
        Json::Obj(entries)
    }

    /// Decode a value; `None` exactly when the spec-level extraction
    /// fails, and every decoded value is well formed.
    pub fn from_json(j: &Json) -> (r: Option<Cargo>)
        ensures
            match r {
                Some(v) => cargo_of_jv(jv(*j)) == Some(v.deep_view()) && cargo_wf(v.deep_view()),
                None => cargo_of_jv(jv(*j)) is None,
            },
    {
        let entries = match j {
            Json::Obj(entries) => entries,
            _ => { return None; }
        };
        proof {
            assert(*j == Json::Obj(*entries));
        }
        let capacity = match json_get_lower::<0>(entries, "capacity") { Some(v) => v, None => { return None; } };
        let units = match json_get_lower::<0>(entries, "units") { Some(v) => v, None => { return None; } };
        let inventory = match json_get(entries, "inventory") {
            Some(sj) => match InventoryItem::vec_from_json_value(sj) {
                Some(v) => v,
                None => { return None; }
            },
            None => { return None; }
        };
        Some(Cargo { capacity, units, inventory })
    }
}

/// A vessel owned by the agent.
#[derive(Debug)]
pub struct Ship {
    pub symbol: NonEmptyString,
    pub registration: Registration,
    pub nav: Nav,
    pub crew: Crew,
    pub frame: Frame,
    pub reactor: Reactor,
    pub engine: Engine,
    pub modules: Vec<Module>,
    pub mounts: Vec<Mount>,
    pub cargo: Cargo,
    pub fuel: Fuel,
}

/// The mathematical view of [`Ship`].
pub struct ShipV {
    pub symbol: Seq<char>,
    pub registration: RegistrationV,
    pub nav: NavV,
    pub crew: CrewV,
    pub frame: FrameV,
    pub reactor: ReactorV,
    pub engine: EngineV,
    pub modules: Seq<ModuleV>,
    pub mounts: Seq<MountV>,
    pub cargo: CargoV,
    pub fuel: FuelV,
}

impl DeepView for Ship {
    type V = ShipV;

    open spec fn deep_view(&self) -> ShipV {
        ShipV {
            symbol: self.symbol.deep_view(),
            registration: self.registration.deep_view(),
            nav: self.nav.deep_view(),
            crew: self.crew.deep_view(),
            frame: self.frame.deep_view(),
            reactor: self.reactor.deep_view(),
            engine: self.engine.deep_view(),
            modules: self.modules.deep_view(),
            mounts: self.mounts.deep_view(),
            cargo: self.cargo.deep_view(),
            fuel: self.fuel.deep_view(),
        }
    }
}

/// Every constrained leaf of the view is within its bounds.
pub open spec fn ship_wf(v: ShipV) -> bool {
    v.symbol.len() > 0
        && registration_wf(v.registration)
        && nav_wf(v.nav)
        && crew_wf(v.crew)
        && frame_wf(v.frame)
        && reactor_wf(v.reactor)
        && engine_wf(v.engine)
        && (forall|i: int| 0 <= i < v.modules.len() ==> module_wf((#[trigger] v.modules[i])))
        && (forall|i: int| 0 <= i < v.mounts.len() ==> mount_wf((#[trigger] v.mounts[i])))
        && cargo_wf(v.cargo)
        && fuel_wf(v.fuel)
}

/// The JSON shape of a view.
pub open spec fn ship_to_jv(v: ShipV) -> JsonV {
    JsonV::Obj(seq![
        ("symbol"@, JsonV::Str(v.symbol)),
        ("registration"@, registration_to_jv(v.registration)),
        ("nav"@, nav_to_jv(v.nav)),
        ("crew"@, crew_to_jv(v.crew)),
        ("frame"@, frame_to_jv(v.frame)),
        ("reactor"@, reactor_to_jv(v.reactor)),
        ("engine"@, engine_to_jv(v.engine)),
        ("modules"@, JsonV::Arr(module_seq_to_jv(v.modules))),
        ("mounts"@, JsonV::Arr(mount_seq_to_jv(v.mounts))),
        ("cargo"@, cargo_to_jv(v.cargo)),
        ("fuel"@, fuel_to_jv(v.fuel)),
    ])
}

/// Extract a view from a JSON value.
pub open spec fn ship_of_jv(j: JsonV) -> Option<ShipV> {
    match j {
        JsonV::Obj(es) => ship_of_obj(es),
        _ => None,
    }
}

/// Extract a view from an object's members.
pub open spec fn ship_of_obj(es: Seq<(Seq<char>, JsonV)>) -> Option<ShipV> {
    match (
        get_nes(es, "symbol"@),
        (match obj_get(es, "registration"@) { Some(sj) => registration_of_jv(sj), None => None }),
        (match obj_get(es, "nav"@) { Some(sj) => nav_of_jv(sj), None => None }),
        (match obj_get(es, "crew"@) { Some(sj) => crew_of_jv(sj), None => None }),
        (match obj_get(es, "frame"@) { Some(sj) => frame_of_jv(sj), None => None }),
        (match obj_get(es, "reactor"@) { Some(sj) => reactor_of_jv(sj), None => None }),
        (match obj_get(es, "engine"@) { Some(sj) => engine_of_jv(sj), None => None }),
        (match obj_get(es, "modules"@) { Some(JsonV::Arr(items)) => module_seq_of_jv(items), _ => None }),
        (match obj_get(es, "mounts"@) { Some(JsonV::Arr(items)) => mount_seq_of_jv(items), _ => None }),
        (match obj_get(es, "cargo"@) { Some(sj) => cargo_of_jv(sj), None => None }),
        (match obj_get(es, "fuel"@) { Some(sj) => fuel_of_jv(sj), None => None }),
    ) {
        (Some(symbol), Some(registration), Some(nav), Some(crew), Some(frame), Some(reactor), Some(engine), Some(modules), Some(mounts), Some(cargo), Some(fuel)) => Some(ShipV { symbol, registration, nav, crew, frame, reactor, engine, modules, mounts, cargo, fuel }),
        _ => None,
    }
}

/// Writing a well-formed view and reading it back yields the view.
pub proof fn lemma_ship_round_trip(v: ShipV)
    requires
        ship_wf(v),
    ensures
        ship_of_jv(ship_to_jv(v)) == Some(v),
{
    reveal_strlit("symbol");
    reveal_strlit("registration");
    reveal_strlit("nav");
    reveal_strlit("crew");
    reveal_strlit("frame");
    reveal_strlit("reactor");
    reveal_strlit("engine");
    reveal_strlit("modules");
    reveal_strlit("mounts");
    reveal_strlit("cargo");
    reveal_strlit("fuel");
    lemma_registration_round_trip(v.registration);
    lemma_nav_round_trip(v.nav);
    lemma_crew_round_trip(v.crew);
    lemma_frame_round_trip(v.frame);
    lemma_reactor_round_trip(v.reactor);
    lemma_engine_round_trip(v.engine);
    lemma_module_seq_round_trip(v.modules);
    lemma_mount_seq_round_trip(v.mounts);
    lemma_cargo_round_trip(v.cargo);
    lemma_fuel_round_trip(v.fuel);
    let es = ship_to_jv(v)->Obj_0;
    assert(es.len() == 11);
    assert(es[0].0 == "symbol"@);
    assert(es[1].0 == "registration"@);
    assert(es[2].0 == "nav"@);
    assert(es[3].0 == "crew"@);
    assert(es[4].0 == "frame"@);
    assert(es[5].0 == "reactor"@);
    assert(es[6].0 == "engine"@);
    assert(es[7].0 == "modules"@);
    assert(es[8].0 == "mounts"@);
    assert(es[9].0 == "cargo"@);
    assert(es[10].0 == "fuel"@);
    assert("engine"@[0] != 's');
    assert("symbol"@[0] == 's');
    assert("modules"@[0] != 'r');
    assert("reactor"@[0] == 'r');
    assert("mounts"@[0] != 's');
    assert("symbol"@[0] == 's');
    assert("mounts"@[0] != 'e');
    assert("engine"@[0] == 'e');
    assert("cargo"@[0] != 'f');
    assert("frame"@[0] == 'f');
    assert("fuel"@[0] != 'c');
    assert("crew"@[0] == 'c');
    lemma_obj_get_at(es, 0);
    lemma_obj_get_at(es, 1);
    lemma_obj_get_at(es, 2);
    lemma_obj_get_at(es, 3);
    lemma_obj_get_at(es, 4);
    lemma_obj_get_at(es, 5);
    lemma_obj_get_at(es, 6);
    lemma_obj_get_at(es, 7);
    lemma_obj_get_at(es, 8);
    lemma_obj_get_at(es, 9);
    lemma_obj_get_at(es, 10);
}

/// The JSON shape of a well-formed view is representable: every integer
/// in it fits.
pub proof fn lemma_ship_to_jv_wf(v: ShipV)
    requires
        ship_wf(v),
    ensures
        jv_wf(ship_to_jv(v)),
{
    lemma_registration_to_jv_wf(v.registration);
    lemma_nav_to_jv_wf(v.nav);
    lemma_crew_to_jv_wf(v.crew);
    lemma_frame_to_jv_wf(v.frame);
    lemma_reactor_to_jv_wf(v.reactor);
    lemma_engine_to_jv_wf(v.engine);
    lemma_module_seq_to_jv_wf(v.modules);
    lemma_mount_seq_to_jv_wf(v.mounts);
    lemma_cargo_to_jv_wf(v.cargo);
    lemma_fuel_to_jv_wf(v.fuel);
    let es = ship_to_jv(v)->Obj_0;
    assert forall|i: int| 0 <= i < es.len() implies jv_wf((#[trigger] es[i]).1) by {
        assert(jv_wf(es[0].1));
        assert(jv_wf(es[1].1));
        assert(jv_wf(es[2].1));
        assert(jv_wf(es[3].1));
        assert(jv_wf(es[4].1));
        assert(jv_wf(es[5].1));
        assert(jv_wf(es[6].1));
        assert(jv_wf(es[7].1));
        assert(jv_wf(es[8].1));
        assert(jv_wf(es[9].1));
        assert(jv_wf(es[10].1));
    }
}

impl Ship {
    /// Encode this value as a JSON object.
    pub fn to_json(&self) -> (r: Json)
        ensures
            jv(r) == ship_to_jv(self.deep_view()),
    {
        let mut entries: Vec<(String, Json)> = Vec::new();
        entries.push((String::from_str("symbol"), nes_json(&self.symbol)));
        entries.push((String::from_str("registration"), self.registration.to_json()));
        entries.push((String::from_str("nav"), self.nav.to_json()));
        entries.push((String::from_str("crew"), self.crew.to_json()));
        entries.push((String::from_str("frame"), self.frame.to_json()));
        entries.push((String::from_str("reactor"), self.reactor.to_json()));
        entries.push((String::from_str("engine"), self.engine.to_json()));
        entries.push((String::from_str("modules"), Module::vec_json(&self.modules)));
        entries.push((String::from_str("mounts"), Mount::vec_json(&self.mounts)));
        entries.push((String::from_str("cargo"), self.cargo.to_json()));
        entries.push((String::from_str("fuel"), self.fuel.to_json()));
        proof {
            lemma_entries_view(entries@);
            let ev = entries_view(entries@);
            let target = ship_to_jv(self.deep_view())->Obj_0;
            assert(entries@.len() == 11);
            assert(target.len() == 11);
            assert(entries@[0].0@ == "symbol"@);
            assert(jv(entries@[0].1) == target[0].1);
            assert(ev[0] == target[0]);
            assert(entries@[1].0@ == "registration"@);
            assert(jv(entries@[1].1) == target[1].1);
            assert(ev[1] == target[1]);
            assert(entries@[2].0@ == "nav"@);
            assert(jv(entries@[2].1) == target[2].1);
            assert(ev[2] == target[2]);
            assert(entries@[3].0@ == "crew"@);
            assert(jv(entries@[3].1) == target[3].1);
            assert(ev[3] == target[3]);
            assert(entries@[4].0@ == "frame"@);
            assert(jv(entries@[4].1) == target[4].1);
            assert(ev[4] == target[4]);
            assert(entries@[5].0@ == "reactor"@);
            assert(jv(entries@[5].1) == target[5].1);
            assert(ev[5] == target[5]);
            assert(entries@[6].0@ == "engine"@);
            assert(jv(entries@[6].1) == target[6].1);
            assert(ev[6] == target[6]);
            assert(entries@[7].0@ == "modules"@);
            assert(jv(entries@[7].1) == target[7].1);
            assert(ev[7] == target[7]);
            assert(entries@[8].0@ == "mounts"@);
            assert(jv(entries@[8].1) == target[8].1);
            assert(ev[8] == target[8]);
            assert(entries@[9].0@ == "cargo"@);
            assert(jv(entries@[9].1) == target[9].1);
            assert(ev[9] == target[9]);
            assert(entries@[10].0@ == "fuel"@);
            assert(jv(entries@[10].1) == target[10].1);
            assert(ev[10] == target[10]);
            assert(ev =~= target);
        }
        Json::Obj(entries)
    }

    /// Decode a value; `None` exactly when the spec-level extraction
    /// fails, and every decoded value is well formed.
    pub fn from_json(j: &Json) -> (r: Option<Ship>)
        ensures
            match r {
                Some(v) => ship_of_jv(jv(*j)) == Some(v.deep_view()) && ship_wf(v.deep_view()),
                None => ship_of_jv(jv(*j)) is None,
            },
    {
        let entries = match j {
            Json::Obj(entries) => entries,
            _ => { return None; }
        };
        proof {
            assert(*j == Json::Obj(*entries));
        }
        let symbol = match json_get_nes(entries, "symbol") { Some(v) => v, None => { return None; } };
        let registration = match json_get(entries, "registration") {
            Some(sj) => match Registration::from_json(sj) {
                Some(v) => v,
                None => { return None; }
            },
            None => { return None; }
        };
        let nav = match json_get(entries, "nav") {
            Some(sj) => match Nav::from_json(sj) {
                Some(v) => v,
                None => { return None; }
            },
            None => { return None; }
        };
        let crew = match json_get(entries, "crew") {
            Some(sj) => match Crew::from_json(sj) {
                Some(v) => v,
                None => { return None; }
            },
            None => { return None; }
        };
        let frame = match json_get(entries, "frame") {
            Some(sj) => match Frame::from_json(sj) {
                Some(v) => v,
                None => { return None; }
            },
            None => { return None; }
        };
        let reactor = match json_get(entries, "reactor") {
            Some(sj) => match Reactor::from_json(sj) {
                Some(v) => v,
                None => { return None; }
            },
            None => { return None; }
        };
        let engine = match json_get(entries, "engine") {
            Some(sj) => match Engine::from_json(sj) {
                Some(v) => v,
                None => { return None; }
            },
            None => { return None; }
        };
        let modules = match json_get(entries, "modules") {
            Some(sj) => match Module::vec_from_json_value(sj) {
                Some(v) => v,
                None => { return None; }
            },
            None => { return None; }
        };
        let mounts = match json_get(entries, "mounts") {
            Some(sj) => match Mount::vec_from_json_value(sj) {
                Some(v) => v,
                None => { return None; }
            },
            None => { return None; }
        };
        let cargo = match json_get(entries, "cargo") {
            Some(sj) => match Cargo::from_json(sj) {
                Some(v) => v,
                None => { return None; }
            },
            None => { return None; }
        };
        let fuel = match json_get(entries, "fuel") {
            Some(sj) => match Fuel::from_json(sj) {
                Some(v) => v,
                None => { return None; }
            },
            None => { return None; }
        };
        Some(Ship { symbol, registration, nav, crew, frame, reactor, engine, modules, mounts, cargo, fuel })
    }
}

/// The JSON array elements for a sequence of values.
pub open spec fn ship_seq_to_jv(vs: Seq<ShipV>) -> Seq<JsonV>
    decreases vs.len(),
{
    if vs.len() == 0 {
        Seq::empty()
    } else {
        seq![ship_to_jv(vs[0])] + ship_seq_to_jv(vs.drop_first())
    }
}

/// Extract a sequence of values from JSON array elements.
pub open spec fn ship_seq_of_jv(items: Seq<JsonV>) -> Option<Seq<ShipV>>
    decreases items.len(),
{
    if items.len() == 0 {
        Some(Seq::empty())
    } else {
        match (ship_of_jv(items[0]), ship_seq_of_jv(items.drop_first())) {
            (Some(v), Some(vs)) => Some(seq![v] + vs),
            _ => None,
        }
    }
}

/// Writing a sequence and reading it back yields the sequence.
pub proof fn lemma_ship_seq_round_trip(vs: Seq<ShipV>)
    requires
        forall|i: int| 0 <= i < vs.len() ==> ship_wf(#[trigger] vs[i]),
    ensures
        ship_seq_of_jv(ship_seq_to_jv(vs)) == Some(vs),
    decreases vs.len(),
{
    if vs.len() > 0 {
        lemma_ship_round_trip(vs[0]);
        lemma_ship_seq_round_trip(vs.drop_first());
        assert(ship_seq_to_jv(vs).drop_first() =~= ship_seq_to_jv(vs.drop_first()));
        assert(seq![vs[0]] + vs.drop_first() =~= vs);
    }
}

/// The JSON array of well-formed views is representable: every integer
/// in it fits.
pub proof fn lemma_ship_seq_to_jv_wf(vs: Seq<ShipV>)
    requires
        forall|i: int| 0 <= i < vs.len() ==> ship_wf(#[trigger] vs[i]),
    ensures
        forall|i: int| 0 <= i < ship_seq_to_jv(vs).len() ==> jv_wf(
            #[trigger] ship_seq_to_jv(vs)[i],
        ),
        jv_wf(JsonV::Arr(ship_seq_to_jv(vs))),
    decreases vs.len(),
{
    if vs.len() > 0 {
        lemma_ship_to_jv_wf(vs[0]);
        assert forall|i: int| 0 <= i < vs.drop_first().len() implies ship_wf(
            #[trigger] vs.drop_first()[i],
        ) by {
            assert(vs.drop_first()[i] == vs[i + 1]);
        }
        lemma_ship_seq_to_jv_wf(vs.drop_first());
        let ws = ship_seq_to_jv(vs);
        let tl = ship_seq_to_jv(vs.drop_first());
        assert(ws == seq![ship_to_jv(vs[0])] + tl);
        assert(jv_wf(ws[0]));
        assert(jv_wf(JsonV::Arr(tl)));
        assert forall|i: int| 0 <= i < ws.len() implies jv_wf(#[trigger] ws[i]) by {
            if i > 0 {
                assert(ws[i] == tl[i - 1]);
                assert(jv_wf(tl[i - 1]));
            }
        }
    } else {
        assert(ship_seq_to_jv(vs) =~= Seq::<JsonV>::empty());
    }
}

impl Ship {
    /// Encode a vector tail (from `k` on) as JSON array elements.
    pub fn vec_to_json(items: &Vec<Ship>, k: usize) -> (r: Vec<Json>)
        requires
            k <= items@.len(),
        ensures
            jv_seq(r@) == ship_seq_to_jv(items.deep_view().skip(k as int)),
        decreases items@.len() - k,
    {
        let ghost dv = items.deep_view();
        if k == items.len() {
            let out: Vec<Json> = Vec::new();
            proof {
                assert(out@ =~= Seq::<Json>::empty());
                assert(jv_seq(out@) =~= Seq::<JsonV>::empty());
                assert(dv.skip(k as int) =~= Seq::<ShipV>::empty());
            }
            out
        } else {
            let mut rest = Self::vec_to_json(items, k + 1);
            let hd = items[k].to_json();
            let ghost restv = rest@;
            rest.insert(0, hd);
            proof {
                assert(rest@[0] == hd);
                assert(rest@.drop_first() =~= restv);
                assert(jv_seq(rest@) =~= seq![jv(hd)] + jv_seq(restv));
                assert(dv.skip(k as int)[0] == dv[k as int]);
                assert(dv.skip(k as int).drop_first() =~= dv.skip(k as int + 1));
                assert(jv_seq(rest@) =~= ship_seq_to_jv(dv.skip(k as int)));
            }
            rest
        }
    }

    /// Encode a whole vector as a JSON array.
    pub fn vec_json(items: &Vec<Ship>) -> (r: Json)
        ensures
            jv(r) == JsonV::Arr(ship_seq_to_jv(items.deep_view())),
    {
        let out = Self::vec_to_json(items, 0);
        proof {
            assert(items.deep_view().skip(0) =~= items.deep_view());
        }
        Json::Arr(out)
    }

    /// Decode a vector from JSON array elements, from `k` on.
    pub fn vec_from_json(items: &Vec<Json>, k: usize) -> (r: Option<Vec<Ship>>)
        requires
            k <= items@.len(),
        ensures
            match r {
                Some(vs) => ship_seq_of_jv(jv_seq(items@).skip(k as int)) == Some(vs.deep_view())
                    && (forall|i: int| 0 <= i < vs.deep_view().len() ==> ship_wf(#[trigger] vs.deep_view()[i])),
                None => ship_seq_of_jv(jv_seq(items@).skip(k as int)) is None,
            },
        decreases items@.len() - k,
    {
        let ghost sv = jv_seq(items@);
        proof {
            lemma_jv_seq(items@);
        }
        if k == items.len() {
            let out: Vec<Ship> = Vec::new();
            proof {
                assert(sv.skip(k as int) =~= Seq::<JsonV>::empty());
                assert(out.deep_view() =~= Seq::<ShipV>::empty());
            }
            return Some(out);
        }
        proof {
            assert(sv.skip(k as int)[0] == sv[k as int]);
            assert(sv.skip(k as int).drop_first() =~= sv.skip(k as int + 1));
        }
        let hd = match Ship::from_json(&items[k]) {
            Some(v) => v,
            None => { return None; }
        };
        match Self::vec_from_json(items, k + 1) {
            Some(mut vs) => {
                let ghost older = vs.deep_view();
                vs.insert(0, hd);
                proof {
                    assert(vs.deep_view()[0] == hd.deep_view());
                    assert(vs.deep_view().drop_first() =~= older);
                    assert(vs.deep_view() =~= seq![hd.deep_view()] + older);
                }
                Some(vs)
            }
            None => None,
        }
    }

    /// Decode a vector from a JSON value that must be an array.
    pub fn vec_from_json_value(j: &Json) -> (r: Option<Vec<Ship>>)
        ensures
            match r {
                Some(vs) => (match jv(*j) {
                    JsonV::Arr(items) => ship_seq_of_jv(items) == Some(vs.deep_view()),
                    _ => false,
                }) && (forall|i: int| 0 <= i < vs.deep_view().len() ==> ship_wf(#[trigger] vs.deep_view()[i])),
                None => (match jv(*j) {
                    JsonV::Arr(items) => ship_seq_of_jv(items) is None,
                    _ => true,
                }),
            },
    {
        let items = match j {
            Json::Arr(items) => items,
            _ => { return None; }
        };
        proof {
            assert(*j == Json::Arr(*items));
            assert(jv_seq(items@).skip(0) =~= jv_seq(items@));
        }
        Self::vec_from_json(items, 0)
    }
}

/// A ship type wrapped in its own object, as the wire carries it.
#[derive(Debug)]
pub struct InnerShipType {
    pub type_: ShipType,
}

/// The mathematical view of [`InnerShipType`].
pub struct InnerShipTypeV {
    pub type_: ShipType,
}

impl DeepView for InnerShipType {
    type V = InnerShipTypeV;

    open spec fn deep_view(&self) -> InnerShipTypeV {
        InnerShipTypeV {
            type_: self.type_,
        }
    }
}

/// Every constrained leaf of the view is within its bounds.
pub open spec fn inner_ship_type_wf(v: InnerShipTypeV) -> bool {
    true
}

/// The JSON shape of a view.
pub open spec fn inner_ship_type_to_jv(v: InnerShipTypeV) -> JsonV {
    JsonV::Obj(seq![
        ("type"@, JsonV::Str(v.type_.tag_spec())),
    ])
}

/// Extract a view from a JSON value.
pub open spec fn inner_ship_type_of_jv(j: JsonV) -> Option<InnerShipTypeV> {
    match j {
        JsonV::Obj(es) => inner_ship_type_of_obj(es),
        _ => None,
    }
}

/// Extract a view from an object's members.
pub open spec fn inner_ship_type_of_obj(es: Seq<(Seq<char>, JsonV)>) -> Option<InnerShipTypeV> {
    match (
        (match get_str(es, "type"@) { Some(s) => ShipType::of_tag(s), None => None }),
    ) {
        (Some(type_),) => Some(InnerShipTypeV { type_ }),
        _ => None,
    }
}

/// Writing a well-formed view and reading it back yields the view.
pub proof fn lemma_inner_ship_type_round_trip(v: InnerShipTypeV)
    requires
        inner_ship_type_wf(v),
    ensures
        inner_ship_type_of_jv(inner_ship_type_to_jv(v)) == Some(v),
{
    reveal_strlit("type");
    v.type_.lemma_tag_round_trip();
    let es = inner_ship_type_to_jv(v)->Obj_0;
    assert(es.len() == 1);
    assert(es[0].0 == "type"@);
    lemma_obj_get_at(es, 0);
}

/// The JSON shape of a well-formed view is representable: every integer
/// in it fits.
pub proof fn lemma_inner_ship_type_to_jv_wf(v: InnerShipTypeV)
    requires
        inner_ship_type_wf(v),
    ensures
        jv_wf(inner_ship_type_to_jv(v)),
{
    let es = inner_ship_type_to_jv(v)->Obj_0;
    assert forall|i: int| 0 <= i < es.len() implies jv_wf((#[trigger] es[i]).1) by {
        assert(jv_wf(es[0].1));
    }
}

impl InnerShipType {
    /// Encode this value as a JSON object.
    pub fn to_json(&self) -> (r: Json)
        ensures
            jv(r) == inner_ship_type_to_jv(self.deep_view()),
    {
        let mut entries: Vec<(String, Json)> = Vec::new();
        entries.push((String::from_str("type"), Json::Str(String::from_str(self.type_.as_str()))));
        proof {
            lemma_entries_view(entries@);
            let ev = entries_view(entries@);
            let target = inner_ship_type_to_jv(self.deep_view())->Obj_0;
            assert(entries@.len() == 1);
            assert(target.len() == 1);
            assert(entries@[0].0@ == "type"@);
            assert(jv(entries@[0].1) == target[0].1);
            assert(ev[0] == target[0]);
            assert(ev =~= target);
        }
        Json::Obj(entries)
    }

    /// Decode a value; `None` exactly when the spec-level extraction
    /// fails, and every decoded value is well formed.
    pub fn from_json(j: &Json) -> (r: Option<InnerShipType>)
        ensures
            match r {
                Some(v) => inner_ship_type_of_jv(jv(*j)) == Some(v.deep_view()) && inner_ship_type_wf(v.deep_view()),
                None => inner_ship_type_of_jv(jv(*j)) is None,
            },
    {
        let entries = match j {
            Json::Obj(entries) => entries,
            _ => { return None; }
        };
        proof {
            assert(*j == Json::Obj(*entries));
        }
        let type_ = match json_get_str(entries, "type") {
            Some(s) => match ShipType::from_tag(s.as_str()) {
                Some(v) => v,
                None => { return None; }
            },
            None => { return None; }
        };
        Some(InnerShipType { type_ })
    }
}

/// The JSON array elements for a sequence of values.
pub open spec fn inner_ship_type_seq_to_jv(vs: Seq<InnerShipTypeV>) -> Seq<JsonV>
    decreases vs.len(),
{
    if vs.len() == 0 {
        Seq::empty()
    } else {
        seq![inner_ship_type_to_jv(vs[0])] + inner_ship_type_seq_to_jv(vs.drop_first())
    }
}

/// Extract a sequence of values from JSON array elements.
pub open spec fn inner_ship_type_seq_of_jv(items: Seq<JsonV>) -> Option<Seq<InnerShipTypeV>>
    decreases items.len(),
{
    if items.len() == 0 {
        Some(Seq::empty())
    } else {
        match (inner_ship_type_of_jv(items[0]), inner_ship_type_seq_of_jv(items.drop_first())) {
            (Some(v), Some(vs)) => Some(seq![v] + vs),
            _ => None,
        }
    }
}

/// Writing a sequence and reading it back yields the sequence.
pub proof fn lemma_inner_ship_type_seq_round_trip(vs: Seq<InnerShipTypeV>)
    requires
        forall|i: int| 0 <= i < vs.len() ==> inner_ship_type_wf(#[trigger] vs[i]),
    ensures
        inner_ship_type_seq_of_jv(inner_ship_type_seq_to_jv(vs)) == Some(vs),
    decreases vs.len(),
{
    if vs.len() > 0 {
        lemma_inner_ship_type_round_trip(vs[0]);
        lemma_inner_ship_type_seq_round_trip(vs.drop_first());
        assert(inner_ship_type_seq_to_jv(vs).drop_first() =~= inner_ship_type_seq_to_jv(vs.drop_first()));
        assert(seq![vs[0]] + vs.drop_first() =~= vs);
    }
}

/// The JSON array of well-formed views is representable: every integer
/// in it fits.
pub proof fn lemma_inner_ship_type_seq_to_jv_wf(vs: Seq<InnerShipTypeV>)
    requires
        forall|i: int| 0 <= i < vs.len() ==> inner_ship_type_wf(#[trigger] vs[i]),
    ensures
        forall|i: int| 0 <= i < inner_ship_type_seq_to_jv(vs).len() ==> jv_wf(
            #[trigger] inner_ship_type_seq_to_jv(vs)[i],
        ),
        jv_wf(JsonV::Arr(inner_ship_type_seq_to_jv(vs))),
    decreases vs.len(),
{
    if vs.len() > 0 {
        lemma_inner_ship_type_to_jv_wf(vs[0]);
        assert forall|i: int| 0 <= i < vs.drop_first().len() implies inner_ship_type_wf(
            #[trigger] vs.drop_first()[i],
        ) by {
            assert(vs.drop_first()[i] == vs[i + 1]);
        }
        lemma_inner_ship_type_seq_to_jv_wf(vs.drop_first());
        let ws = inner_ship_type_seq_to_jv(vs);
        let tl = inner_ship_type_seq_to_jv(vs.drop_first());
        assert(ws == seq![inner_ship_type_to_jv(vs[0])] + tl);
        assert(jv_wf(ws[0]));
        assert(jv_wf(JsonV::Arr(tl)));
        assert forall|i: int| 0 <= i < ws.len() implies jv_wf(#[trigger] ws[i]) by {
            if i > 0 {
                assert(ws[i] == tl[i - 1]);
                assert(jv_wf(tl[i - 1]));
            }
        }
    } else {
        assert(inner_ship_type_seq_to_jv(vs) =~= Seq::<JsonV>::empty());
    }
}

impl InnerShipType {
    /// Encode a vector tail (from `k` on) as JSON array elements.
    pub fn vec_to_json(items: &Vec<InnerShipType>, k: usize) -> (r: Vec<Json>)
        requires
            k <= items@.len(),
        ensures
            jv_seq(r@) == inner_ship_type_seq_to_jv(items.deep_view().skip(k as int)),
        decreases items@.len() - k,
    {
        let ghost dv = items.deep_view();
        if k == items.len() {
            let out: Vec<Json> = Vec::new();
            proof {
                assert(out@ =~= Seq::<Json>::empty());
                assert(jv_seq(out@) =~= Seq::<JsonV>::empty());
                assert(dv.skip(k as int) =~= Seq::<InnerShipTypeV>::empty());
            }
            out
        } else {
            let mut rest = Self::vec_to_json(items, k + 1);
            let hd = items[k].to_json();
            let ghost restv = rest@;
            rest.insert(0, hd);
            proof {
                assert(rest@[0] == hd);
                assert(rest@.drop_first() =~= restv);
                assert(jv_seq(rest@) =~= seq![jv(hd)] + jv_seq(restv));
                assert(dv.skip(k as int)[0] == dv[k as int]);
                assert(dv.skip(k as int).drop_first() =~= dv.skip(k as int + 1));
                assert(jv_seq(rest@) =~= inner_ship_type_seq_to_jv(dv.skip(k as int)));
            }
            rest
        }
    }

    /// Encode a whole vector as a JSON array.
    pub fn vec_json(items: &Vec<InnerShipType>) -> (r: Json)
        ensures
            jv(r) == JsonV::Arr(inner_ship_type_seq_to_jv(items.deep_view())),
    {
        let out = Self::vec_to_json(items, 0);
        proof {
            assert(items.deep_view().skip(0) =~= items.deep_view());
        }
        Json::Arr(out)
    }

    /// Decode a vector from JSON array elements, from `k` on.
    pub fn vec_from_json(items: &Vec<Json>, k: usize) -> (r: Option<Vec<InnerShipType>>)
        requires
            k <= items@.len(),
        ensures
            match r {
                Some(vs) => inner_ship_type_seq_of_jv(jv_seq(items@).skip(k as int)) == Some(vs.deep_view())
                    && (forall|i: int| 0 <= i < vs.deep_view().len() ==> inner_ship_type_wf(#[trigger] vs.deep_view()[i])),
                None => inner_ship_type_seq_of_jv(jv_seq(items@).skip(k as int)) is None,
            },
        decreases items@.len() - k,
    {
        let ghost sv = jv_seq(items@);
        proof {
            lemma_jv_seq(items@);
        }
        if k == items.len() {
            let out: Vec<InnerShipType> = Vec::new();
            proof {
                assert(sv.skip(k as int) =~= Seq::<JsonV>::empty());
                assert(out.deep_view() =~= Seq::<InnerShipTypeV>::empty());
            }
            return Some(out);
        }
        proof {
            assert(sv.skip(k as int)[0] == sv[k as int]);
            assert(sv.skip(k as int).drop_first() =~= sv.skip(k as int + 1));
        }
        let hd = match InnerShipType::from_json(&items[k]) {
            Some(v) => v,
            None => { return None; }
        };
        match Self::vec_from_json(items, k + 1) {
            Some(mut vs) => {
                let ghost older = vs.deep_view();
                vs.insert(0, hd);
                proof {
                    assert(vs.deep_view()[0] == hd.deep_view());
                    assert(vs.deep_view().drop_first() =~= older);
                    assert(vs.deep_view() =~= seq![hd.deep_view()] + older);
                }
                Some(vs)
            }
            None => None,
        }
    }

    /// Decode a vector from a JSON value that must be an array.
    pub fn vec_from_json_value(j: &Json) -> (r: Option<Vec<InnerShipType>>)
        ensures
            match r {
                Some(vs) => (match jv(*j) {
                    JsonV::Arr(items) => inner_ship_type_seq_of_jv(items) == Some(vs.deep_view()),
                    _ => false,
                }) && (forall|i: int| 0 <= i < vs.deep_view().len() ==> inner_ship_type_wf(#[trigger] vs.deep_view()[i])),
                None => (match jv(*j) {
                    JsonV::Arr(items) => inner_ship_type_seq_of_jv(items) is None,
                    _ => true,
                }),
            },
    {
        let items = match j {
            Json::Arr(items) => items,
            _ => { return None; }
        };
        proof {
            assert(*j == Json::Arr(*items));
            assert(jv_seq(items@).skip(0) =~= jv_seq(items@));
        }
        Self::vec_from_json(items, 0)
    }
}

/// A recorded purchase at a shipyard.
#[derive(Debug)]
pub struct ShipyardTransaction {
    pub waypoint_symbol: NonEmptyString,
    pub ship_symbol: NonEmptyString,
    pub price: LowerBoundInt<1>,
    pub agent_symbol: NonEmptyString,
    pub timestamp: NonEmptyString,
}

/// The mathematical view of [`ShipyardTransaction`].
pub struct ShipyardTransactionV {
    pub waypoint_symbol: Seq<char>,
    pub ship_symbol: Seq<char>,
    pub price: int,
    pub agent_symbol: Seq<char>,
    pub timestamp: Seq<char>,
}

impl DeepView for ShipyardTransaction {
    type V = ShipyardTransactionV;

    open spec fn deep_view(&self) -> ShipyardTransactionV {
        ShipyardTransactionV {
            waypoint_symbol: self.waypoint_symbol.deep_view(),
            ship_symbol: self.ship_symbol.deep_view(),
            price: self.price.deep_view(),
            agent_symbol: self.agent_symbol.deep_view(),
            timestamp: self.timestamp.deep_view(),
        }
    }
}

/// Every constrained leaf of the view is within its bounds.
pub open spec fn shipyard_transaction_wf(v: ShipyardTransactionV) -> bool {
    v.waypoint_symbol.len() > 0
        && v.ship_symbol.len() > 0
        && 1 <= v.price && v.price <= i64::MAX as int
        && v.agent_symbol.len() > 0
        && v.timestamp.len() > 0
}

/// The JSON shape of a view.
pub open spec fn shipyard_transaction_to_jv(v: ShipyardTransactionV) -> JsonV {
    JsonV::Obj(seq![
        ("waypointSymbol"@, JsonV::Str(v.waypoint_symbol)),
        ("shipSymbol"@, JsonV::Str(v.ship_symbol)),
        ("price"@, JsonV::Int(v.price)),
        ("agentSymbol"@, JsonV::Str(v.agent_symbol)),
        ("timestamp"@, JsonV::Str(v.timestamp)),
    ])
}

/// Extract a view from a JSON value.
pub open spec fn shipyard_transaction_of_jv(j: JsonV) -> Option<ShipyardTransactionV> {
    match j {
        JsonV::Obj(es) => shipyard_transaction_of_obj(es),
        _ => None,
    }
}

/// Extract a view from an object's members.
pub open spec fn shipyard_transaction_of_obj(es: Seq<(Seq<char>, JsonV)>) -> Option<ShipyardTransactionV> {
    match (
        get_nes(es, "waypointSymbol"@),
        get_nes(es, "shipSymbol"@),
        get_int_min(es, "price"@, 1),
        get_nes(es, "agentSymbol"@),
        get_nes(es, "timestamp"@),
    ) {
        (Some(waypoint_symbol), Some(ship_symbol), Some(price), Some(agent_symbol), Some(timestamp)) => Some(ShipyardTransactionV { waypoint_symbol, ship_symbol, price, agent_symbol, timestamp }),
        _ => None,
    }
}

/// Writing a well-formed view and reading it back yields the view.
pub proof fn lemma_shipyard_transaction_round_trip(v: ShipyardTransactionV)
    requires
        shipyard_transaction_wf(v),
    ensures
        shipyard_transaction_of_jv(shipyard_transaction_to_jv(v)) == Some(v),
{
    reveal_strlit("waypointSymbol");
    reveal_strlit("shipSymbol");
    reveal_strlit("price");
    reveal_strlit("agentSymbol");
    reveal_strlit("timestamp");
    let es = shipyard_transaction_to_jv(v)->Obj_0;
    assert(es.len() == 5);
    assert(es[0].0 == "waypointSymbol"@);
    assert(es[1].0 == "shipSymbol"@);
    assert(es[2].0 == "price"@);
    assert(es[3].0 == "agentSymbol"@);
    assert(es[4].0 == "timestamp"@);
    lemma_obj_get_at(es, 0);
    lemma_obj_get_at(es, 1);
    lemma_obj_get_at(es, 2);
    lemma_obj_get_at(es, 3);
    lemma_obj_get_at(es, 4);
}

/// The JSON shape of a well-formed view is representable: every integer
/// in it fits.
pub proof fn lemma_shipyard_transaction_to_jv_wf(v: ShipyardTransactionV)
    requires
        shipyard_transaction_wf(v),
    ensures
        jv_wf(shipyard_transaction_to_jv(v)),
{
    let es = shipyard_transaction_to_jv(v)->Obj_0;
    assert forall|i: int| 0 <= i < es.len() implies jv_wf((#[trigger] es[i]).1) by {
        assert(jv_wf(es[0].1));
        assert(jv_wf(es[1].1));
        assert(jv_wf(es[2].1));
        assert(jv_wf(es[3].1));
        assert(jv_wf(es[4].1));
    }
}

impl ShipyardTransaction {
    /// Encode this value as a JSON object.
    pub fn to_json(&self) -> (r: Json)
        ensures
            jv(r) == shipyard_transaction_to_jv(self.deep_view()),
    {
        let mut entries: Vec<(String, Json)> = Vec::new();
        entries.push((String::from_str("waypointSymbol"), nes_json(&self.waypoint_symbol)));
        entries.push((String::from_str("shipSymbol"), nes_json(&self.ship_symbol)));
        entries.push((String::from_str("price"), lower_json(&self.price)));
        entries.push((String::from_str("agentSymbol"), nes_json(&self.agent_symbol)));
        entries.push((String::from_str("timestamp"), nes_json(&self.timestamp)));
        proof {
            lemma_entries_view(entries@);
            let ev = entries_view(entries@);
            let target = shipyard_transaction_to_jv(self.deep_view())->Obj_0;
            assert(entries@.len() == 5);
            assert(target.len() == 5);
            assert(entries@[0].0@ == "waypointSymbol"@);
            assert(jv(entries@[0].1) == target[0].1);
            assert(ev[0] == target[0]);
            assert(entries@[1].0@ == "shipSymbol"@);
            assert(jv(entries@[1].1) == target[1].1);
            assert(ev[1] == target[1]);
            assert(entries@[2].0@ == "price"@);
            assert(jv(entries@[2].1) == target[2].1);
            assert(ev[2] == target[2]);
            assert(entries@[3].0@ == "agentSymbol"@);
            assert(jv(entries@[3].1) == target[3].1);
            assert(ev[3] == target[3]);
            assert(entries@[4].0@ == "timestamp"@);
            assert(jv(entries@[4].1) == target[4].1);
            assert(ev[4] == target[4]);
            assert(ev =~= target);
        }
        Json::Obj(entries)
    }

    /// Decode a value; `None` exactly when the spec-level extraction
    /// fails, and every decoded value is well formed.
    pub fn from_json(j: &Json) -> (r: Option<ShipyardTransaction>)
        ensures
            match r {
                Some(v) => shipyard_transaction_of_jv(jv(*j)) == Some(v.deep_view()) && shipyard_transaction_wf(v.deep_view()),
                None => shipyard_transaction_of_jv(jv(*j)) is None,
            },
    {
        let entries = match j {
            Json::Obj(entries) => entries,
            _ => { return None; }
        };
        proof {
            assert(*j == Json::Obj(*entries));
        }
        let waypoint_symbol = match json_get_nes(entries, "waypointSymbol") { Some(v) => v, None => { return None; } };
        let ship_symbol = match json_get_nes(entries, "shipSymbol") { Some(v) => v, None => { return None; } };
        let price = match json_get_lower::<1>(entries, "price") { Some(v) => v, None => { return None; } };
        let agent_symbol = match json_get_nes(entries, "agentSymbol") { Some(v) => v, None => { return None; } };
        let timestamp = match json_get_nes(entries, "timestamp") { Some(v) => v, None => { return None; } };
        Some(ShipyardTransaction { waypoint_symbol, ship_symbol, price, agent_symbol, timestamp })
    }
}

/// The JSON array elements for a sequence of values.
pub open spec fn shipyard_transaction_seq_to_jv(vs: Seq<ShipyardTransactionV>) -> Seq<JsonV>
    decreases vs.len(),
{
    if vs.len() == 0 {
        Seq::empty()
    } else {
        seq![shipyard_transaction_to_jv(vs[0])] + shipyard_transaction_seq_to_jv(vs.drop_first())
    }
}

/// Extract a sequence of values from JSON array elements.
pub open spec fn shipyard_transaction_seq_of_jv(items: Seq<JsonV>) -> Option<Seq<ShipyardTransactionV>>
    decreases items.len(),
{
    if items.len() == 0 {
        Some(Seq::empty())
    } else {
        match (shipyard_transaction_of_jv(items[0]), shipyard_transaction_seq_of_jv(items.drop_first())) {
            (Some(v), Some(vs)) => Some(seq![v] + vs),
            _ => None,
        }
    }
}

/// Writing a sequence and reading it back yields the sequence.
pub proof fn lemma_shipyard_transaction_seq_round_trip(vs: Seq<ShipyardTransactionV>)
    requires
        forall|i: int| 0 <= i < vs.len() ==> shipyard_transaction_wf(#[trigger] vs[i]),
    ensures
        shipyard_transaction_seq_of_jv(shipyard_transaction_seq_to_jv(vs)) == Some(vs),
    decreases vs.len(),
{
    if vs.len() > 0 {
        lemma_shipyard_transaction_round_trip(vs[0]);
        lemma_shipyard_transaction_seq_round_trip(vs.drop_first());
        assert(shipyard_transaction_seq_to_jv(vs).drop_first() =~= shipyard_transaction_seq_to_jv(vs.drop_first()));
        assert(seq![vs[0]] + vs.drop_first() =~= vs);
    }
}

/// The JSON array of well-formed views is representable: every integer
/// in it fits.
pub proof fn lemma_shipyard_transaction_seq_to_jv_wf(vs: Seq<ShipyardTransactionV>)
    requires
        forall|i: int| 0 <= i < vs.len() ==> shipyard_transaction_wf(#[trigger] vs[i]),
    ensures
        forall|i: int| 0 <= i < shipyard_transaction_seq_to_jv(vs).len() ==> jv_wf(
            #[trigger] shipyard_transaction_seq_to_jv(vs)[i],
        ),
        jv_wf(JsonV::Arr(shipyard_transaction_seq_to_jv(vs))),
    decreases vs.len(),
{
    if vs.len() > 0 {
        lemma_shipyard_transaction_to_jv_wf(vs[0]);
        assert forall|i: int| 0 <= i < vs.drop_first().len() implies shipyard_transaction_wf(
            #[trigger] vs.drop_first()[i],
        ) by {
            assert(vs.drop_first()[i] == vs[i + 1]);
        }
        lemma_shipyard_transaction_seq_to_jv_wf(vs.drop_first());
        let ws = shipyard_transaction_seq_to_jv(vs);
        let tl = shipyard_transaction_seq_to_jv(vs.drop_first());
        assert(ws == seq![shipyard_transaction_to_jv(vs[0])] + tl);
        assert(jv_wf(ws[0]));
        assert(jv_wf(JsonV::Arr(tl)));
        assert forall|i: int| 0 <= i < ws.len() implies jv_wf(#[trigger] ws[i]) by {
            if i > 0 {
                assert(ws[i] == tl[i - 1]);
                assert(jv_wf(tl[i - 1]));
            }
        }
    } else {
        assert(shipyard_transaction_seq_to_jv(vs) =~= Seq::<JsonV>::empty());
    }
}

impl ShipyardTransaction {
    /// Encode a vector tail (from `k` on) as JSON array elements.
    pub fn vec_to_json(items: &Vec<ShipyardTransaction>, k: usize) -> (r: Vec<Json>)
        requires
            k <= items@.len(),
        ensures
            jv_seq(r@) == shipyard_transaction_seq_to_jv(items.deep_view().skip(k as int)),
        decreases items@.len() - k,
    {
        let ghost dv = items.deep_view();
        if k == items.len() {
            let out: Vec<Json> = Vec::new();
            proof {
                assert(out@ =~= Seq::<Json>::empty());
                assert(jv_seq(out@) =~= Seq::<JsonV>::empty());
                assert(dv.skip(k as int) =~= Seq::<ShipyardTransactionV>::empty());
            }
            out
        } else {
            let mut rest = Self::vec_to_json(items, k + 1);
            let hd = items[k].to_json();
            let ghost restv = rest@;
            rest.insert(0, hd);
            proof {
                assert(rest@[0] == hd);
                assert(rest@.drop_first() =~= restv);
                assert(jv_seq(rest@) =~= seq![jv(hd)] + jv_seq(restv));
                assert(dv.skip(k as int)[0] == dv[k as int]);
                assert(dv.skip(k as int).drop_first() =~= dv.skip(k as int + 1));
                assert(jv_seq(rest@) =~= shipyard_transaction_seq_to_jv(dv.skip(k as int)));
            }
            rest
        }
    }

    /// Encode a whole vector as a JSON array.
    pub fn vec_json(items: &Vec<ShipyardTransaction>) -> (r: Json)
        ensures
            jv(r) == JsonV::Arr(shipyard_transaction_seq_to_jv(items.deep_view())),
    {
        let out = Self::vec_to_json(items, 0);
        proof {
            assert(items.deep_view().skip(0) =~= items.deep_view());
        }
        Json::Arr(out)
    }

    /// Decode a vector from JSON array elements, from `k` on.
    pub fn vec_from_json(items: &Vec<Json>, k: usize) -> (r: Option<Vec<ShipyardTransaction>>)
        requires
            k <= items@.len(),
        ensures
            match r {
                Some(vs) => shipyard_transaction_seq_of_jv(jv_seq(items@).skip(k as int)) == Some(vs.deep_view())
                    && (forall|i: int| 0 <= i < vs.deep_view().len() ==> shipyard_transaction_wf(#[trigger] vs.deep_view()[i])),
                None => shipyard_transaction_seq_of_jv(jv_seq(items@).skip(k as int)) is None,
            },
        decreases items@.len() - k,
    {
        let ghost sv = jv_seq(items@);
        proof {
            lemma_jv_seq(items@);
        }
        if k == items.len() {
            let out: Vec<ShipyardTransaction> = Vec::new();
            proof {
                assert(sv.skip(k as int) =~= Seq::<JsonV>::empty());
                assert(out.deep_view() =~= Seq::<ShipyardTransactionV>::empty());
            }
            return Some(out);
        }
        proof {
            assert(sv.skip(k as int)[0] == sv[k as int]);
            assert(sv.skip(k as int).drop_first() =~= sv.skip(k as int + 1));
        }
        let hd = match ShipyardTransaction::from_json(&items[k]) {
            Some(v) => v,
            None => { return None; }
        };
        match Self::vec_from_json(items, k + 1) {
            Some(mut vs) => {
                let ghost older = vs.deep_view();
                vs.insert(0, hd);
                proof {
                    assert(vs.deep_view()[0] == hd.deep_view());
                    assert(vs.deep_view().drop_first() =~= older);
                    assert(vs.deep_view() =~= seq![hd.deep_view()] + older);
                }
                Some(vs)
            }
            None => None,
        }
    }

    /// Decode a vector from a JSON value that must be an array.
    pub fn vec_from_json_value(j: &Json) -> (r: Option<Vec<ShipyardTransaction>>)
        ensures
            match r {
                Some(vs) => (match jv(*j) {
                    JsonV::Arr(items) => shipyard_transaction_seq_of_jv(items) == Some(vs.deep_view()),
                    _ => false,
                }) && (forall|i: int| 0 <= i < vs.deep_view().len() ==> shipyard_transaction_wf(#[trigger] vs.deep_view()[i])),
                None => (match jv(*j) {
                    JsonV::Arr(items) => shipyard_transaction_seq_of_jv(items) is None,
                    _ => true,
                }),
            },
    {
        let items = match j {
            Json::Arr(items) => items,
            _ => { return None; }
        };
        proof {
            assert(*j == Json::Arr(*items));
            assert(jv_seq(items@).skip(0) =~= jv_seq(items@));
        }
        Self::vec_from_json(items, 0)
    }
}

/// A ship offered for sale at a shipyard.
#[derive(Debug)]
pub struct ShipyardShip {
    pub type_: ShipType,
    pub name: NonEmptyString,
    pub description: NonEmptyString,
    pub purchase_price: i32,
    pub frame: Frame,
    pub reactor: Reactor,
    pub engine: Engine,
    pub modules: Vec<Module>,
    pub mounts: Vec<Mount>,
}

/// The mathematical view of [`ShipyardShip`].
pub struct ShipyardShipV {
    pub type_: ShipType,
    pub name: Seq<char>,
    pub description: Seq<char>,
    pub purchase_price: int,
    pub frame: FrameV,
    pub reactor: ReactorV,
    pub engine: EngineV,
    pub modules: Seq<ModuleV>,
    pub mounts: Seq<MountV>,
}

impl DeepView for ShipyardShip {
    type V = ShipyardShipV;

    open spec fn deep_view(&self) -> ShipyardShipV {
        ShipyardShipV {
            type_: self.type_,
            name: self.name.deep_view(),
            description: self.description.deep_view(),
            purchase_price: self.purchase_price as int,
            frame: self.frame.deep_view(),
            reactor: self.reactor.deep_view(),
            engine: self.engine.deep_view(),
            modules: self.modules.deep_view(),
            mounts: self.mounts.deep_view(),
        }
    }
}

/// Every constrained leaf of the view is within its bounds.
pub open spec fn shipyard_ship_wf(v: ShipyardShipV) -> bool {
    v.name.len() > 0
        && v.description.len() > 0
        && i32::MIN as int <= v.purchase_price && v.purchase_price <= i32::MAX as int
        && frame_wf(v.frame)
        && reactor_wf(v.reactor)
        && engine_wf(v.engine)
        && (forall|i: int| 0 <= i < v.modules.len() ==> module_wf((#[trigger] v.modules[i])))
        && (forall|i: int| 0 <= i < v.mounts.len() ==> mount_wf((#[trigger] v.mounts[i])))
}

/// The JSON shape of a view.
pub open spec fn shipyard_ship_to_jv(v: ShipyardShipV) -> JsonV {
    JsonV::Obj(seq![
        ("type"@, JsonV::Str(v.type_.tag_spec())),
        ("name"@, JsonV::Str(v.name)),
        ("description"@, JsonV::Str(v.description)),
        ("purchasePrice"@, JsonV::Int(v.purchase_price)),
        ("frame"@, frame_to_jv(v.frame)),
        ("reactor"@, reactor_to_jv(v.reactor)),
        ("engine"@, engine_to_jv(v.engine)),
        ("modules"@, JsonV::Arr(module_seq_to_jv(v.modules))),
        ("mounts"@, JsonV::Arr(mount_seq_to_jv(v.mounts))),
    ])
}

/// Extract a view from a JSON value.
pub open spec fn shipyard_ship_of_jv(j: JsonV) -> Option<ShipyardShipV> {
    match j {
        JsonV::Obj(es) => shipyard_ship_of_obj(es),
        _ => None,
    }
}

/// Extract a view from an object's members.
pub open spec fn shipyard_ship_of_obj(es: Seq<(Seq<char>, JsonV)>) -> Option<ShipyardShipV> {
    match (
        (match get_str(es, "type"@) { Some(s) => ShipType::of_tag(s), None => None }),
        get_nes(es, "name"@),
        get_nes(es, "description"@),
        get_i32(es, "purchasePrice"@),
        (match obj_get(es, "frame"@) { Some(sj) => frame_of_jv(sj), None => None }),
        (match obj_get(es, "reactor"@) { Some(sj) => reactor_of_jv(sj), None => None }),
        (match obj_get(es, "engine"@) { Some(sj) => engine_of_jv(sj), None => None }),
        (match obj_get(es, "modules"@) { Some(JsonV::Arr(items)) => module_seq_of_jv(items), _ => None }),
        (match obj_get(es, "mounts"@) { Some(JsonV::Arr(items)) => mount_seq_of_jv(items), _ => None }),
    ) {
        (Some(type_), Some(name), Some(description), Some(purchase_price), Some(frame), Some(reactor), Some(engine), Some(modules), Some(mounts)) => Some(ShipyardShipV { type_, name, description, purchase_price, frame, reactor, engine, modules, mounts }),
        _ => None,
    }
}

/// Writing a well-formed view and reading it back yields the view.
pub proof fn lemma_shipyard_ship_round_trip(v: ShipyardShipV)
    requires
        shipyard_ship_wf(v),
    ensures
        shipyard_ship_of_jv(shipyard_ship_to_jv(v)) == Some(v),
{
    reveal_strlit("type");
    reveal_strlit("name");
    reveal_strlit("description");
    reveal_strlit("purchasePrice");
    reveal_strlit("frame");
    reveal_strlit("reactor");
    reveal_strlit("engine");
    reveal_strlit("modules");
    reveal_strlit("mounts");
    v.type_.lemma_tag_round_trip();
    lemma_frame_round_trip(v.frame);
    lemma_reactor_round_trip(v.reactor);
    lemma_engine_round_trip(v.engine);
    lemma_module_seq_round_trip(v.modules);
    lemma_mount_seq_round_trip(v.mounts);
    let es = shipyard_ship_to_jv(v)->Obj_0;
    assert(es.len() == 9);
    assert(es[0].0 == "type"@);
    assert(es[1].0 == "name"@);
    assert(es[2].0 == "description"@);
    assert(es[3].0 == "purchasePrice"@);
    assert(es[4].0 == "frame"@);
    assert(es[5].0 == "reactor"@);
    assert(es[6].0 == "engine"@);
    assert(es[7].0 == "modules"@);
    assert(es[8].0 == "mounts"@);
    assert("name"@[0] != 't');
    assert("type"@[0] == 't');
    assert("modules"@[0] != 'r');
    assert("reactor"@[0] == 'r');
    assert("mounts"@[0] != 'e');
    assert("engine"@[0] == 'e');
    lemma_obj_get_at(es, 0);
    lemma_obj_get_at(es, 1);
    lemma_obj_get_at(es, 2);
    lemma_obj_get_at(es, 3);
    lemma_obj_get_at(es, 4);
    lemma_obj_get_at(es, 5);
    lemma_obj_get_at(es, 6);
    lemma_obj_get_at(es, 7);
    lemma_obj_get_at(es, 8);
}

/// The JSON shape of a well-formed view is representable: every integer
/// in it fits.
pub proof fn lemma_shipyard_ship_to_jv_wf(v: ShipyardShipV)
    requires
        shipyard_ship_wf(v),
    ensures
        jv_wf(shipyard_ship_to_jv(v)),
{
    lemma_frame_to_jv_wf(v.frame);
    lemma_reactor_to_jv_wf(v.reactor);
    lemma_engine_to_jv_wf(v.engine);
    lemma_module_seq_to_jv_wf(v.modules);
    lemma_mount_seq_to_jv_wf(v.mounts);
    let es = shipyard_ship_to_jv(v)->Obj_0;
    assert forall|i: int| 0 <= i < es.len() implies jv_wf((#[trigger] es[i]).1) by {
        assert(jv_wf(es[0].1));
        assert(jv_wf(es[1].1));
        assert(jv_wf(es[2].1));
        assert(jv_wf(es[3].1));
        assert(jv_wf(es[4].1));
        assert(jv_wf(es[5].1));
        assert(jv_wf(es[6].1));
        assert(jv_wf(es[7].1));
        assert(jv_wf(es[8].1));
    }
}

impl ShipyardShip {
    /// Encode this value as a JSON object.
    pub fn to_json(&self) -> (r: Json)
        ensures
            jv(r) == shipyard_ship_to_jv(self.deep_view()),
    {
        let mut entries: Vec<(String, Json)> = Vec::new();
        entries.push((String::from_str("type"), Json::Str(String::from_str(self.type_.as_str()))));
        entries.push((String::from_str("name"), nes_json(&self.name)));
        entries.push((String::from_str("description"), nes_json(&self.description)));
        entries.push((String::from_str("purchasePrice"), i32_json(self.purchase_price)));
        entries.push((String::from_str("frame"), self.frame.to_json()));
        entries.push((String::from_str("reactor"), self.reactor.to_json()));
        entries.push((String::from_str("engine"), self.engine.to_json()));
        entries.push((String::from_str("modules"), Module::vec_json(&self.modules)));
        entries.push((String::from_str("mounts"), Mount::vec_json(&self.mounts)));
        proof {
            lemma_entries_view(entries@);
            let ev = entries_view(entries@);
            let target = shipyard_ship_to_jv(self.deep_view())->Obj_0;
            assert(entries@.len() == 9);
            assert(target.len() == 9);
            assert(entries@[0].0@ == "type"@);
            assert(jv(entries@[0].1) == target[0].1);
            assert(ev[0] == target[0]);
            assert(entries@[1].0@ == "name"@);
            assert(jv(entries@[1].1) == target[1].1);
            assert(ev[1] == target[1]);
            assert(entries@[2].0@ == "description"@);
            assert(jv(entries@[2].1) == target[2].1);
            assert(ev[2] == target[2]);
            assert(entries@[3].0@ == "purchasePrice"@);
            assert(jv(entries@[3].1) == target[3].1);
            assert(ev[3] == target[3]);
            assert(entries@[4].0@ == "frame"@);
            assert(jv(entries@[4].1) == target[4].1);
            assert(ev[4] == target[4]);
            assert(entries@[5].0@ == "reactor"@);
            assert(jv(entries@[5].1) == target[5].1);
            assert(ev[5] == target[5]);
            assert(entries@[6].0@ == "engine"@);
            assert(jv(entries@[6].1) == target[6].1);
            assert(ev[6] == target[6]);
            assert(entries@[7].0@ == "modules"@);
            assert(jv(entries@[7].1) == target[7].1);
            assert(ev[7] == target[7]);
            assert(entries@[8].0@ == "mounts"@);
            assert(jv(entries@[8].1) == target[8].1);
            assert(ev[8] == target[8]);
            assert(ev =~= target);
        }
        Json::Obj(entries)
    }

    /// Decode a value; `None` exactly when the spec-level extraction
    /// fails, and every decoded value is well formed.
    pub fn from_json(j: &Json) -> (r: Option<ShipyardShip>)
        ensures
            match r {
                Some(v) => shipyard_ship_of_jv(jv(*j)) == Some(v.deep_view()) && shipyard_ship_wf(v.deep_view()),
                None => shipyard_ship_of_jv(jv(*j)) is None,
            },
    {
        let entries = match j {
            Json::Obj(entries) => entries,
            _ => { return None; }
        };
        proof {
            assert(*j == Json::Obj(*entries));
        }
        let type_ = match json_get_str(entries, "type") {
            Some(s) => match ShipType::from_tag(s.as_str()) {
                Some(v) => v,
                None => { return None; }
            },
            None => { return None; }
        };
        let name = match json_get_nes(entries, "name") { Some(v) => v, None => { return None; } };
        let description = match json_get_nes(entries, "description") { Some(v) => v, None => { return None; } };
        let purchase_price = match json_get_i32(entries, "purchasePrice") { Some(v) => v, None => { return None; } };
        let frame = match json_get(entries, "frame") {
            Some(sj) => match Frame::from_json(sj) {
                Some(v) => v,
                None => { return None; }
            },
            None => { return None; }
        };
        let reactor = match json_get(entries, "reactor") {
            Some(sj) => match Reactor::from_json(sj) {
                Some(v) => v,
                None => { return None; }
            },
            None => { return None; }
        };
        let engine = match json_get(entries, "engine") {
            Some(sj) => match Engine::from_json(sj) {
                Some(v) => v,
                None => { return None; }
            },
            None => { return None; }
        };
        let modules = match json_get(entries, "modules") {
            Some(sj) => match Module::vec_from_json_value(sj) {
                Some(v) => v,
                None => { return None; }
            },
            None => { return None; }
        };
        let mounts = match json_get(entries, "mounts") {
            Some(sj) => match Mount::vec_from_json_value(sj) {
                Some(v) => v,
                None => { return None; }
            },
            None => { return None; }
        };
        Some(ShipyardShip { type_, name, description, purchase_price, frame, reactor, engine, modules, mounts })
    }
}

/// The JSON array elements for a sequence of values.
pub open spec fn shipyard_ship_seq_to_jv(vs: Seq<ShipyardShipV>) -> Seq<JsonV>
    decreases vs.len(),
{
    if vs.len() == 0 {
        Seq::empty()
    } else {
        seq![shipyard_ship_to_jv(vs[0])] + shipyard_ship_seq_to_jv(vs.drop_first())
    }
}

/// Extract a sequence of values from JSON array elements.
pub open spec fn shipyard_ship_seq_of_jv(items: Seq<JsonV>) -> Option<Seq<ShipyardShipV>>
    decreases items.len(),
{
    if items.len() == 0 {
        Some(Seq::empty())
    } else {
        match (shipyard_ship_of_jv(items[0]), shipyard_ship_seq_of_jv(items.drop_first())) {
            (Some(v), Some(vs)) => Some(seq![v] + vs),
            _ => None,
        }
    }
}

/// Writing a sequence and reading it back yields the sequence.
pub proof fn lemma_shipyard_ship_seq_round_trip(vs: Seq<ShipyardShipV>)
    requires
        forall|i: int| 0 <= i < vs.len() ==> shipyard_ship_wf(#[trigger] vs[i]),
    ensures
        shipyard_ship_seq_of_jv(shipyard_ship_seq_to_jv(vs)) == Some(vs),
    decreases vs.len(),
{
    if vs.len() > 0 {
        lemma_shipyard_ship_round_trip(vs[0]);
        lemma_shipyard_ship_seq_round_trip(vs.drop_first());
        assert(shipyard_ship_seq_to_jv(vs).drop_first() =~= shipyard_ship_seq_to_jv(vs.drop_first()));
        assert(seq![vs[0]] + vs.drop_first() =~= vs);
    }
}

/// The JSON array of well-formed views is representable: every integer
/// in it fits.
pub proof fn lemma_shipyard_ship_seq_to_jv_wf(vs: Seq<ShipyardShipV>)
    requires
        forall|i: int| 0 <= i < vs.len() ==> shipyard_ship_wf(#[trigger] vs[i]),
    ensures
        forall|i: int| 0 <= i < shipyard_ship_seq_to_jv(vs).len() ==> jv_wf(
            #[trigger] shipyard_ship_seq_to_jv(vs)[i],
        ),
        jv_wf(JsonV::Arr(shipyard_ship_seq_to_jv(vs))),
    decreases vs.len(),
{
    if vs.len() > 0 {
        lemma_shipyard_ship_to_jv_wf(vs[0]);
        assert forall|i: int| 0 <= i < vs.drop_first().len() implies shipyard_ship_wf(
            #[trigger] vs.drop_first()[i],
        ) by {
            assert(vs.drop_first()[i] == vs[i + 1]);
        }
        lemma_shipyard_ship_seq_to_jv_wf(vs.drop_first());
        let ws = shipyard_ship_seq_to_jv(vs);
        let tl = shipyard_ship_seq_to_jv(vs.drop_first());
        assert(ws == seq![shipyard_ship_to_jv(vs[0])] + tl);
        assert(jv_wf(ws[0]));
        assert(jv_wf(JsonV::Arr(tl)));
        assert forall|i: int| 0 <= i < ws.len() implies jv_wf(#[trigger] ws[i]) by {
            if i > 0 {
                assert(ws[i] == tl[i - 1]);
                assert(jv_wf(tl[i - 1]));
            }
        }
    } else {
        assert(shipyard_ship_seq_to_jv(vs) =~= Seq::<JsonV>::empty());
    }
}

impl ShipyardShip {
    /// Encode a vector tail (from `k` on) as JSON array elements.
    pub fn vec_to_json(items: &Vec<ShipyardShip>, k: usize) -> (r: Vec<Json>)
        requires
            k <= items@.len(),
        ensures
            jv_seq(r@) == shipyard_ship_seq_to_jv(items.deep_view().skip(k as int)),
        decreases items@.len() - k,
    {
        let ghost dv = items.deep_view();
        if k == items.len() {
            let out: Vec<Json> = Vec::new();
            proof {
                assert(out@ =~= Seq::<Json>::empty());
                assert(jv_seq(out@) =~= Seq::<JsonV>::empty());
                assert(dv.skip(k as int) =~= Seq::<ShipyardShipV>::empty());
            }
            out
        } else {
            let mut rest = Self::vec_to_json(items, k + 1);
            let hd = items[k].to_json();
            let ghost restv = rest@;
            rest.insert(0, hd);
            proof {
                assert(rest@[0] == hd);
                assert(rest@.drop_first() =~= restv);
                assert(jv_seq(rest@) =~= seq![jv(hd)] + jv_seq(restv));
                assert(dv.skip(k as int)[0] == dv[k as int]);
                assert(dv.skip(k as int).drop_first() =~= dv.skip(k as int + 1));
                assert(jv_seq(rest@) =~= shipyard_ship_seq_to_jv(dv.skip(k as int)));
            }
            rest
        }
    }

    /// Encode a whole vector as a JSON array.
    pub fn vec_json(items: &Vec<ShipyardShip>) -> (r: Json)
        ensures
            jv(r) == JsonV::Arr(shipyard_ship_seq_to_jv(items.deep_view())),
    {
        let out = Self::vec_to_json(items, 0);
        proof {
            assert(items.deep_view().skip(0) =~= items.deep_view());
        }
        Json::Arr(out)
    }

    /// Decode a vector from JSON array elements, from `k` on.
    pub fn vec_from_json(items: &Vec<Json>, k: usize) -> (r: Option<Vec<ShipyardShip>>)
        requires
            k <= items@.len(),
        ensures
            match r {
                Some(vs) => shipyard_ship_seq_of_jv(jv_seq(items@).skip(k as int)) == Some(vs.deep_view())
                    && (forall|i: int| 0 <= i < vs.deep_view().len() ==> shipyard_ship_wf(#[trigger] vs.deep_view()[i])),
                None => shipyard_ship_seq_of_jv(jv_seq(items@).skip(k as int)) is None,
            },
        decreases items@.len() - k,
    {
        let ghost sv = jv_seq(items@);
        proof {
            lemma_jv_seq(items@);
        }
        if k == items.len() {
            let out: Vec<ShipyardShip> = Vec::new();
            proof {
                assert(sv.skip(k as int) =~= Seq::<JsonV>::empty());
                assert(out.deep_view() =~= Seq::<ShipyardShipV>::empty());
            }
            return Some(out);
        }
        proof {
            assert(sv.skip(k as int)[0] == sv[k as int]);
            assert(sv.skip(k as int).drop_first() =~= sv.skip(k as int + 1));
        }
        let hd = match ShipyardShip::from_json(&items[k]) {
            Some(v) => v,
            None => { return None; }
        };
        match Self::vec_from_json(items, k + 1) {
            Some(mut vs) => {
                let ghost older = vs.deep_view();
                vs.insert(0, hd);
                proof {
                    assert(vs.deep_view()[0] == hd.deep_view());
                    assert(vs.deep_view().drop_first() =~= older);
                    assert(vs.deep_view() =~= seq![hd.deep_view()] + older);
                }
                Some(vs)
            }
            None => None,
        }
    }

    /// Decode a vector from a JSON value that must be an array.
    pub fn vec_from_json_value(j: &Json) -> (r: Option<Vec<ShipyardShip>>)
        ensures
            match r {
                Some(vs) => (match jv(*j) {
                    JsonV::Arr(items) => shipyard_ship_seq_of_jv(items) == Some(vs.deep_view()),
                    _ => false,
                }) && (forall|i: int| 0 <= i < vs.deep_view().len() ==> shipyard_ship_wf(#[trigger] vs.deep_view()[i])),
                None => (match jv(*j) {
                    JsonV::Arr(items) => shipyard_ship_seq_of_jv(items) is None,
                    _ => true,
                }),
            },
    {
        let items = match j {
            Json::Arr(items) => items,
            _ => { return None; }
        };
        proof {
            assert(*j == Json::Arr(*items));
            assert(jv_seq(items@).skip(0) =~= jv_seq(items@));
        }
        Self::vec_from_json(items, 0)
    }
}

/// A shipyard: the ship types it sells, and optionally its stock.
#[derive(Debug)]
pub struct Shipyard {
    pub symbol: NonEmptyString,
    pub ship_types: Vec<InnerShipType>,
    pub transactions: Option<Vec<ShipyardTransaction>>,
    pub ships: Option<Vec<ShipyardShip>>,
}

/// The mathematical view of [`Shipyard`].
pub struct ShipyardV {
    pub symbol: Seq<char>,
    pub ship_types: Seq<InnerShipTypeV>,
    pub transactions: Option<Seq<ShipyardTransactionV>>,
    pub ships: Option<Seq<ShipyardShipV>>,
}

impl DeepView for Shipyard {
    type V = ShipyardV;

    open spec fn deep_view(&self) -> ShipyardV {
        ShipyardV {
            symbol: self.symbol.deep_view(),
            ship_types: self.ship_types.deep_view(),
            transactions: self.transactions.deep_view(),
            ships: self.ships.deep_view(),
        }
    }
}

/// Every constrained leaf of the view is within its bounds.
pub open spec fn shipyard_wf(v: ShipyardV) -> bool {
    v.symbol.len() > 0
        && (forall|i: int| 0 <= i < v.ship_types.len() ==> inner_ship_type_wf((#[trigger] v.ship_types[i])))
        && (match v.transactions { Some(x) => (forall|i: int| 0 <= i < x.len() ==> shipyard_transaction_wf((#[trigger] x[i]))), None => true })
        && (match v.ships { Some(x) => (forall|i: int| 0 <= i < x.len() ==> shipyard_ship_wf((#[trigger] x[i]))), None => true })
}

/// The JSON shape of a view.
pub open spec fn shipyard_to_jv(v: ShipyardV) -> JsonV {
    JsonV::Obj(seq![
        ("symbol"@, JsonV::Str(v.symbol)),
        ("shipTypes"@, JsonV::Arr(inner_ship_type_seq_to_jv(v.ship_types))),
        ("transactions"@, (match v.transactions { Some(x) => JsonV::Arr(shipyard_transaction_seq_to_jv(x)), None => JsonV::Null })),
        ("ships"@, (match v.ships { Some(x) => JsonV::Arr(shipyard_ship_seq_to_jv(x)), None => JsonV::Null })),
    ])
}

/// Extract a view from a JSON value.
pub open spec fn shipyard_of_jv(j: JsonV) -> Option<ShipyardV> {
    match j {
        JsonV::Obj(es) => shipyard_of_obj(es),
        _ => None,
    }
}

/// Extract a view from an object's members.
pub open spec fn shipyard_of_obj(es: Seq<(Seq<char>, JsonV)>) -> Option<ShipyardV> {
    match (
        get_nes(es, "symbol"@),
        (match obj_get(es, "shipTypes"@) { Some(JsonV::Arr(items)) => inner_ship_type_seq_of_jv(items), _ => None }),
        (match obj_get(es, "transactions"@) { None => Some(None), Some(JsonV::Null) => Some(None), Some(JsonV::Arr(items)) => (match shipyard_transaction_seq_of_jv(items) { Some(x) => Some(Some(x)), None => None }), Some(_) => None }),
        (match obj_get(es, "ships"@) { None => Some(None), Some(JsonV::Null) => Some(None), Some(JsonV::Arr(items)) => (match shipyard_ship_seq_of_jv(items) { Some(x) => Some(Some(x)), None => None }), Some(_) => None }),
    ) {
        (Some(symbol), Some(ship_types), Some(transactions), Some(ships)) => Some(ShipyardV { symbol, ship_types, transactions, ships }),
        _ => None,
    }
}

/// Writing a well-formed view and reading it back yields the view.
pub proof fn lemma_shipyard_round_trip(v: ShipyardV)
    requires
        shipyard_wf(v),
    ensures
        shipyard_of_jv(shipyard_to_jv(v)) == Some(v),
{
    reveal_strlit("symbol");
    reveal_strlit("shipTypes");
    reveal_strlit("transactions");
    reveal_strlit("ships");
    lemma_inner_ship_type_seq_round_trip(v.ship_types);
    match v.transactions {
        Some(x) => { lemma_shipyard_transaction_seq_round_trip(x); }
        None => {}
    }
    match v.ships {
        Some(x) => { lemma_shipyard_ship_seq_round_trip(x); }
        None => {}
    }
    let es = shipyard_to_jv(v)->Obj_0;
    assert(es.len() == 4);
    assert(es[0].0 == "symbol"@);
    assert(es[1].0 == "shipTypes"@);
    assert(es[2].0 == "transactions"@);
    assert(es[3].0 == "ships"@);
    lemma_obj_get_at(es, 0);
    lemma_obj_get_at(es, 1);
    lemma_obj_get_at(es, 2);
    lemma_obj_get_at(es, 3);
}

/// The JSON shape of a well-formed view is representable: every integer
/// in it fits.
pub proof fn lemma_shipyard_to_jv_wf(v: ShipyardV)
    requires
        shipyard_wf(v),
    ensures
        jv_wf(shipyard_to_jv(v)),
{
    lemma_inner_ship_type_seq_to_jv_wf(v.ship_types);
    match v.transactions {
        Some(x) => lemma_shipyard_transaction_seq_to_jv_wf(x),
        None => {}
    }
    match v.ships {
        Some(x) => lemma_shipyard_ship_seq_to_jv_wf(x),
        None => {}
    }
    let es = shipyard_to_jv(v)->Obj_0;
    assert forall|i: int| 0 <= i < es.len() implies jv_wf((#[trigger] es[i]).1) by {
        assert(jv_wf(es[0].1));
        assert(jv_wf(es[1].1));
        assert(jv_wf(es[2].1));
        assert(jv_wf(es[3].1));
    }
}

impl Shipyard {
    /// Encode this value as a JSON object.
    pub fn to_json(&self) -> (r: Json)
        ensures
            jv(r) == shipyard_to_jv(self.deep_view()),
    {
        let mut entries: Vec<(String, Json)> = Vec::new();
        entries.push((String::from_str("symbol"), nes_json(&self.symbol)));
        entries.push((String::from_str("shipTypes"), InnerShipType::vec_json(&self.ship_types)));
        entries.push((String::from_str("transactions"), (match &self.transactions { Some(x) => ShipyardTransaction::vec_json(x), None => Json::Null })));
        entries.push((String::from_str("ships"), (match &self.ships { Some(x) => ShipyardShip::vec_json(x), None => Json::Null })));
        proof {
            lemma_entries_view(entries@);
            let ev = entries_view(entries@);
            let target = shipyard_to_jv(self.deep_view())->Obj_0;
            assert(entries@.len() == 4);
            assert(target.len() == 4);
            assert(entries@[0].0@ == "symbol"@);
            assert(jv(entries@[0].1) == target[0].1);
            assert(ev[0] == target[0]);
            assert(entries@[1].0@ == "shipTypes"@);
            assert(jv(entries@[1].1) == target[1].1);
            assert(ev[1] == target[1]);
            assert(entries@[2].0@ == "transactions"@);
            assert(jv(entries@[2].1) == target[2].1);
            assert(ev[2] == target[2]);
            assert(entries@[3].0@ == "ships"@);
            assert(jv(entries@[3].1) == target[3].1);
            assert(ev[3] == target[3]);
            assert(ev =~= target);
        }
        Json::Obj(entries)
    }

    /// Decode a value; `None` exactly when the spec-level extraction
    /// fails, and every decoded value is well formed.
    pub fn from_json(j: &Json) -> (r: Option<Shipyard>)
        ensures
            match r {
                Some(v) => shipyard_of_jv(jv(*j)) == Some(v.deep_view()) && shipyard_wf(v.deep_view()),
                None => shipyard_of_jv(jv(*j)) is None,
            },
    {
        let entries = match j {
            Json::Obj(entries) => entries,
            _ => { return None; }
        };
        proof {
            assert(*j == Json::Obj(*entries));
        }
        let symbol = match json_get_nes(entries, "symbol") { Some(v) => v, None => { return None; } };
        let ship_types = match json_get(entries, "shipTypes") {
            Some(sj) => match InnerShipType::vec_from_json_value(sj) {
                Some(v) => v,
                None => { return None; }
            },
            None => { return None; }
        };
        let transactions = match json_get(entries, "transactions") {
            None => None,
            Some(sj) => match sj {
                Json::Null => None,
                _ => match ShipyardTransaction::vec_from_json_value(sj) {
                    Some(v) => Some(v),
                    None => { return None; }
                },
            },
        };
        let ships = match json_get(entries, "ships") {
            None => None,
            Some(sj) => match sj {
                Json::Null => None,
                _ => match ShipyardShip::vec_from_json_value(sj) {
                    Some(v) => Some(v),
                    None => { return None; }
                },
            },
        };
        Some(Shipyard { symbol, ship_types, transactions, ships })
    }
}

/// One deposit named by a survey.
#[derive(Debug)]
pub struct SurveyDeposit {
    pub symbol: Deposit,
}

/// The mathematical view of [`SurveyDeposit`].
pub struct SurveyDepositV {
    pub symbol: Deposit,
}

impl DeepView for SurveyDeposit {
    type V = SurveyDepositV;

    open spec fn deep_view(&self) -> SurveyDepositV {
        SurveyDepositV {
            symbol: self.symbol,
        }
    }
}

/// Every constrained leaf of the view is within its bounds.
pub open spec fn survey_deposit_wf(v: SurveyDepositV) -> bool {
    true
}

/// The JSON shape of a view.
pub open spec fn survey_deposit_to_jv(v: SurveyDepositV) -> JsonV {
    JsonV::Obj(seq![
        ("symbol"@, JsonV::Str(v.symbol.tag_spec())),
    ])
}

/// Extract a view from a JSON value.
pub open spec fn survey_deposit_of_jv(j: JsonV) -> Option<SurveyDepositV> {
    match j {
        JsonV::Obj(es) => survey_deposit_of_obj(es),
        _ => None,
    }
}

/// Extract a view from an object's members.
pub open spec fn survey_deposit_of_obj(es: Seq<(Seq<char>, JsonV)>) -> Option<SurveyDepositV> {
    match (
        (match get_str(es, "symbol"@) { Some(s) => Deposit::of_tag(s), None => None }),
    ) {
        (Some(symbol),) => Some(SurveyDepositV { symbol }),
        _ => None,
    }
}

/// Writing a well-formed view and reading it back yields the view.
pub proof fn lemma_survey_deposit_round_trip(v: SurveyDepositV)
    requires
        survey_deposit_wf(v),
    ensures
        survey_deposit_of_jv(survey_deposit_to_jv(v)) == Some(v),
{
    reveal_strlit("symbol");
    v.symbol.lemma_tag_round_trip();
    let es = survey_deposit_to_jv(v)->Obj_0;
    assert(es.len() == 1);
    assert(es[0].0 == "symbol"@);
    lemma_obj_get_at(es, 0);
}

/// The JSON shape of a well-formed view is representable: every integer
/// in it fits.
pub proof fn lemma_survey_deposit_to_jv_wf(v: SurveyDepositV)
    requires
        survey_deposit_wf(v),
    ensures
        jv_wf(survey_deposit_to_jv(v)),
{
    let es = survey_deposit_to_jv(v)->Obj_0;
    assert forall|i: int| 0 <= i < es.len() implies jv_wf((#[trigger] es[i]).1) by {
        assert(jv_wf(es[0].1));
    }
}

impl SurveyDeposit {
    /// Encode this value as a JSON object.
    pub fn to_json(&self) -> (r: Json)
        ensures
            jv(r) == survey_deposit_to_jv(self.deep_view()),
    {
        let mut entries: Vec<(String, Json)> = Vec::new();
        entries.push((String::from_str("symbol"), Json::Str(String::from_str(self.symbol.as_str()))));
        proof {
            lemma_entries_view(entries@);
            let ev = entries_view(entries@);
            let target = survey_deposit_to_jv(self.deep_view())->Obj_0;
            assert(entries@.len() == 1);
            assert(target.len() == 1);
            assert(entries@[0].0@ == "symbol"@);
            assert(jv(entries@[0].1) == target[0].1);
            assert(ev[0] == target[0]);
            assert(ev =~= target);
        }
        Json::Obj(entries)
    }

    /// Decode a value; `None` exactly when the spec-level extraction
    /// fails, and every decoded value is well formed.
    pub fn from_json(j: &Json) -> (r: Option<SurveyDeposit>)
        ensures
            match r {
                Some(v) => survey_deposit_of_jv(jv(*j)) == Some(v.deep_view()) && survey_deposit_wf(v.deep_view()),
                None => survey_deposit_of_jv(jv(*j)) is None,
            },
    {
        let entries = match j {
            Json::Obj(entries) => entries,
            _ => { return None; }
        };
        proof {
            assert(*j == Json::Obj(*entries));
        }
        let symbol = match json_get_str(entries, "symbol") {
            Some(s) => match Deposit::from_tag(s.as_str()) {
                Some(v) => v,
                None => { return None; }
            },
            None => { return None; }
        };
        Some(SurveyDeposit { symbol })
    }
}

/// The JSON array elements for a sequence of values.
pub open spec fn survey_deposit_seq_to_jv(vs: Seq<SurveyDepositV>) -> Seq<JsonV>
    decreases vs.len(),
{
    if vs.len() == 0 {
        Seq::empty()
    } else {
        seq![survey_deposit_to_jv(vs[0])] + survey_deposit_seq_to_jv(vs.drop_first())
    }
}

/// Extract a sequence of values from JSON array elements.
pub open spec fn survey_deposit_seq_of_jv(items: Seq<JsonV>) -> Option<Seq<SurveyDepositV>>
    decreases items.len(),
{
    if items.len() == 0 {
        Some(Seq::empty())
    } else {
        match (survey_deposit_of_jv(items[0]), survey_deposit_seq_of_jv(items.drop_first())) {
            (Some(v), Some(vs)) => Some(seq![v] + vs),
            _ => None,
        }
    }
}

/// Writing a sequence and reading it back yields the sequence.
pub proof fn lemma_survey_deposit_seq_round_trip(vs: Seq<SurveyDepositV>)
    requires
        forall|i: int| 0 <= i < vs.len() ==> survey_deposit_wf(#[trigger] vs[i]),
    ensures
        survey_deposit_seq_of_jv(survey_deposit_seq_to_jv(vs)) == Some(vs),
    decreases vs.len(),
{
    if vs.len() > 0 {
        lemma_survey_deposit_round_trip(vs[0]);
        lemma_survey_deposit_seq_round_trip(vs.drop_first());
        assert(survey_deposit_seq_to_jv(vs).drop_first() =~= survey_deposit_seq_to_jv(vs.drop_first()));
        assert(seq![vs[0]] + vs.drop_first() =~= vs);
    }
}

/// The JSON array of well-formed views is representable: every integer
/// in it fits.
pub proof fn lemma_survey_deposit_seq_to_jv_wf(vs: Seq<SurveyDepositV>)
    requires
        forall|i: int| 0 <= i < vs.len() ==> survey_deposit_wf(#[trigger] vs[i]),
    ensures
        forall|i: int| 0 <= i < survey_deposit_seq_to_jv(vs).len() ==> jv_wf(
            #[trigger] survey_deposit_seq_to_jv(vs)[i],
        ),
        jv_wf(JsonV::Arr(survey_deposit_seq_to_jv(vs))),
    decreases vs.len(),
{
    if vs.len() > 0 {
        lemma_survey_deposit_to_jv_wf(vs[0]);
        assert forall|i: int| 0 <= i < vs.drop_first().len() implies survey_deposit_wf(
            #[trigger] vs.drop_first()[i],
        ) by {
            assert(vs.drop_first()[i] == vs[i + 1]);
        }
        lemma_survey_deposit_seq_to_jv_wf(vs.drop_first());
        let ws = survey_deposit_seq_to_jv(vs);
        let tl = survey_deposit_seq_to_jv(vs.drop_first());
        assert(ws == seq![survey_deposit_to_jv(vs[0])] + tl);
        assert(jv_wf(ws[0]));
        assert(jv_wf(JsonV::Arr(tl)));
        assert forall|i: int| 0 <= i < ws.len() implies jv_wf(#[trigger] ws[i]) by {
            if i > 0 {
                assert(ws[i] == tl[i - 1]);
                assert(jv_wf(tl[i - 1]));
            }
        }
    } else {
        assert(survey_deposit_seq_to_jv(vs) =~= Seq::<JsonV>::empty());
    }
}

impl SurveyDeposit {
    /// Encode a vector tail (from `k` on) as JSON array elements.
    pub fn vec_to_json(items: &Vec<SurveyDeposit>, k: usize) -> (r: Vec<Json>)
        requires
            k <= items@.len(),
        ensures
            jv_seq(r@) == survey_deposit_seq_to_jv(items.deep_view().skip(k as int)),
        decreases items@.len() - k,
    {
        let ghost dv = items.deep_view();
        if k == items.len() {
            let out: Vec<Json> = Vec::new();
            proof {
                assert(out@ =~= Seq::<Json>::empty());
                assert(jv_seq(out@) =~= Seq::<JsonV>::empty());
                assert(dv.skip(k as int) =~= Seq::<SurveyDepositV>::empty());
            }
            out
        } else {
            let mut rest = Self::vec_to_json(items, k + 1);
            let hd = items[k].to_json();
            let ghost restv = rest@;
            rest.insert(0, hd);
            proof {
                assert(rest@[0] == hd);
                assert(rest@.drop_first() =~= restv);
                assert(jv_seq(rest@) =~= seq![jv(hd)] + jv_seq(restv));
                assert(dv.skip(k as int)[0] == dv[k as int]);
                assert(dv.skip(k as int).drop_first() =~= dv.skip(k as int + 1));
                assert(jv_seq(rest@) =~= survey_deposit_seq_to_jv(dv.skip(k as int)));
            }
            rest
        }
    }

    /// Encode a whole vector as a JSON array.
    pub fn vec_json(items: &Vec<SurveyDeposit>) -> (r: Json)
        ensures
            jv(r) == JsonV::Arr(survey_deposit_seq_to_jv(items.deep_view())),
    {
        let out = Self::vec_to_json(items, 0);
        proof {
            assert(items.deep_view().skip(0) =~= items.deep_view());
        }
        Json::Arr(out)
    }

    /// Decode a vector from JSON array elements, from `k` on.
    pub fn vec_from_json(items: &Vec<Json>, k: usize) -> (r: Option<Vec<SurveyDeposit>>)
        requires
            k <= items@.len(),
        ensures
            match r {
                Some(vs) => survey_deposit_seq_of_jv(jv_seq(items@).skip(k as int)) == Some(vs.deep_view())
                    && (forall|i: int| 0 <= i < vs.deep_view().len() ==> survey_deposit_wf(#[trigger] vs.deep_view()[i])),
                None => survey_deposit_seq_of_jv(jv_seq(items@).skip(k as int)) is None,
            },
        decreases items@.len() - k,
    {
        let ghost sv = jv_seq(items@);
        proof {
            lemma_jv_seq(items@);
        }
        if k == items.len() {
            let out: Vec<SurveyDeposit> = Vec::new();
            proof {
                assert(sv.skip(k as int) =~= Seq::<JsonV>::empty());
                assert(out.deep_view() =~= Seq::<SurveyDepositV>::empty());
            }
            return Some(out);
        }
        proof {
            assert(sv.skip(k as int)[0] == sv[k as int]);
            assert(sv.skip(k as int).drop_first() =~= sv.skip(k as int + 1));
        }
        let hd = match SurveyDeposit::from_json(&items[k]) {
            Some(v) => v,
            None => { return None; }
        };
        match Self::vec_from_json(items, k + 1) {
            Some(mut vs) => {
                let ghost older = vs.deep_view();
                vs.insert(0, hd);
                proof {
                    assert(vs.deep_view()[0] == hd.deep_view());
                    assert(vs.deep_view().drop_first() =~= older);
                    assert(vs.deep_view() =~= seq![hd.deep_view()] + older);
                }
                Some(vs)
            }
            None => None,
        }
    }

    /// Decode a vector from a JSON value that must be an array.
    pub fn vec_from_json_value(j: &Json) -> (r: Option<Vec<SurveyDeposit>>)
        ensures
            match r {
                Some(vs) => (match jv(*j) {
                    JsonV::Arr(items) => survey_deposit_seq_of_jv(items) == Some(vs.deep_view()),
                    _ => false,
                }) && (forall|i: int| 0 <= i < vs.deep_view().len() ==> survey_deposit_wf(#[trigger] vs.deep_view()[i])),
                None => (match jv(*j) {
                    JsonV::Arr(items) => survey_deposit_seq_of_jv(items) is None,
                    _ => true,
                }),
            },
    {
        let items = match j {
            Json::Arr(items) => items,
            _ => { return None; }
        };
        proof {
            assert(*j == Json::Arr(*items));
            assert(jv_seq(items@).skip(0) =~= jv_seq(items@));
        }
        Self::vec_from_json(items, 0)
    }
}

/// A time-limited resource-deposit signature that biases extraction.
#[derive(Debug)]
pub struct Survey {
    pub signature: NonEmptyString,
    pub symbol: NonEmptyString,
    pub deposits: Vec<SurveyDeposit>,
    pub expiration: NonEmptyString,
    pub size: SurveySize,
}

/// The mathematical view of [`Survey`].
pub struct SurveyV {
    pub signature: Seq<char>,
    pub symbol: Seq<char>,
    pub deposits: Seq<SurveyDepositV>,
    pub expiration: Seq<char>,
    pub size: SurveySize,
}

impl DeepView for Survey {
    type V = SurveyV;

    open spec fn deep_view(&self) -> SurveyV {
        SurveyV {
            signature: self.signature.deep_view(),
            symbol: self.symbol.deep_view(),
            deposits: self.deposits.deep_view(),
            expiration: self.expiration.deep_view(),
            size: self.size,
        }
    }
}

/// Every constrained leaf of the view is within its bounds.
pub open spec fn survey_wf(v: SurveyV) -> bool {
    v.signature.len() > 0
        && v.symbol.len() > 0
        && (forall|i: int| 0 <= i < v.deposits.len() ==> survey_deposit_wf((#[trigger] v.deposits[i])))
        && v.expiration.len() > 0
}

/// The JSON shape of a view.
pub open spec fn survey_to_jv(v: SurveyV) -> JsonV {
    JsonV::Obj(seq![
        ("signature"@, JsonV::Str(v.signature)),
        ("symbol"@, JsonV::Str(v.symbol)),
        ("deposits"@, JsonV::Arr(survey_deposit_seq_to_jv(v.deposits))),
        ("expiration"@, JsonV::Str(v.expiration)),
        ("size"@, JsonV::Str(v.size.tag_spec())),
    ])
}

/// Extract a view from a JSON value.
pub open spec fn survey_of_jv(j: JsonV) -> Option<SurveyV> {
    match j {
        JsonV::Obj(es) => survey_of_obj(es),
        _ => None,
    }
}

/// Extract a view from an object's members.
pub open spec fn survey_of_obj(es: Seq<(Seq<char>, JsonV)>) -> Option<SurveyV> {
    match (
        get_nes(es, "signature"@),
        get_nes(es, "symbol"@),
        (match obj_get(es, "deposits"@) { Some(JsonV::Arr(items)) => survey_deposit_seq_of_jv(items), _ => None }),
        get_nes(es, "expiration"@),
        (match get_str(es, "size"@) { Some(s) => SurveySize::of_tag(s), None => None }),
    ) {
        (Some(signature), Some(symbol), Some(deposits), Some(expiration), Some(size)) => Some(SurveyV { signature, symbol, deposits, expiration, size }),
        _ => None,
    }
}

/// Writing a well-formed view and reading it back yields the view.
pub proof fn lemma_survey_round_trip(v: SurveyV)
    requires
        survey_wf(v),
    ensures
        survey_of_jv(survey_to_jv(v)) == Some(v),
{
    reveal_strlit("signature");
    reveal_strlit("symbol");
    reveal_strlit("deposits");
    reveal_strlit("expiration");
    reveal_strlit("size");
    lemma_survey_deposit_seq_round_trip(v.deposits);
    v.size.lemma_tag_round_trip();
    let es = survey_to_jv(v)->Obj_0;
    assert(es.len() == 5);
    assert(es[0].0 == "signature"@);
    assert(es[1].0 == "symbol"@);
    assert(es[2].0 == "deposits"@);
    assert(es[3].0 == "expiration"@);
    assert(es[4].0 == "size"@);
    lemma_obj_get_at(es, 0);
    lemma_obj_get_at(es, 1);
    lemma_obj_get_at(es, 2);
    lemma_obj_get_at(es, 3);
    lemma_obj_get_at(es, 4);
}

/// The JSON shape of a well-formed view is representable: every integer
/// in it fits.
pub proof fn lemma_survey_to_jv_wf(v: SurveyV)
    requires
        survey_wf(v),
    ensures
        jv_wf(survey_to_jv(v)),
{
    lemma_survey_deposit_seq_to_jv_wf(v.deposits);
    let es = survey_to_jv(v)->Obj_0;
    assert forall|i: int| 0 <= i < es.len() implies jv_wf((#[trigger] es[i]).1) by {
        assert(jv_wf(es[0].1));
        assert(jv_wf(es[1].1));
        assert(jv_wf(es[2].1));
        assert(jv_wf(es[3].1));
        assert(jv_wf(es[4].1));
    }
}

impl Survey {
    /// Encode this value as a JSON object.
    pub fn to_json(&self) -> (r: Json)
        ensures
            jv(r) == survey_to_jv(self.deep_view()),
    {
        let mut entries: Vec<(String, Json)> = Vec::new();
        entries.push((String::from_str("signature"), nes_json(&self.signature)));
        entries.push((String::from_str("symbol"), nes_json(&self.symbol)));
        entries.push((String::from_str("deposits"), SurveyDeposit::vec_json(&self.deposits)));
        entries.push((String::from_str("expiration"), nes_json(&self.expiration)));
        entries.push((String::from_str("size"), Json::Str(String::from_str(self.size.as_str()))));
        proof {
            lemma_entries_view(entries@);
            let ev = entries_view(entries@);
            let target = survey_to_jv(self.deep_view())->Obj_0;
            assert(entries@.len() == 5);
            assert(target.len() == 5);
            assert(entries@[0].0@ == "signature"@);
            assert(jv(entries@[0].1) == target[0].1);
            assert(ev[0] == target[0]);
            assert(entries@[1].0@ == "symbol"@);
            assert(jv(entries@[1].1) == target[1].1);
            assert(ev[1] == target[1]);
            assert(entries@[2].0@ == "deposits"@);
            assert(jv(entries@[2].1) == target[2].1);
            assert(ev[2] == target[2]);
            assert(entries@[3].0@ == "expiration"@);
            assert(jv(entries@[3].1) == target[3].1);
            assert(ev[3] == target[3]);
            assert(entries@[4].0@ == "size"@);
            assert(jv(entries@[4].1) == target[4].1);
            assert(ev[4] == target[4]);
            assert(ev =~= target);
        }
        Json::Obj(entries)
    }

    /// Decode a value; `None` exactly when the spec-level extraction
    /// fails, and every decoded value is well formed.
    pub fn from_json(j: &Json) -> (r: Option<Survey>)
        ensures
            match r {
                Some(v) => survey_of_jv(jv(*j)) == Some(v.deep_view()) && survey_wf(v.deep_view()),
                None => survey_of_jv(jv(*j)) is None,
            },
    {
        let entries = match j {
            Json::Obj(entries) => entries,
            _ => { return None; }
        };
        proof {
            assert(*j == Json::Obj(*entries));
        }
        let signature = match json_get_nes(entries, "signature") { Some(v) => v, None => { return None; } };
        let symbol = match json_get_nes(entries, "symbol") { Some(v) => v, None => { return None; } };
        let deposits = match json_get(entries, "deposits") {
            Some(sj) => match SurveyDeposit::vec_from_json_value(sj) {
                Some(v) => v,
                None => { return None; }
            },
            None => { return None; }
        };
        let expiration = match json_get_nes(entries, "expiration") { Some(v) => v, None => { return None; } };
        let size = match json_get_str(entries, "size") {
            Some(s) => match SurveySize::from_tag(s.as_str()) {
                Some(v) => v,
                None => { return None; }
            },
            None => { return None; }
        };
        Some(Survey { signature, symbol, deposits, expiration, size })
    }
}

/// A server-enforced wait before a ship may repeat an action.
#[derive(Debug)]
pub struct Cooldown {
    pub ship_symbol: NonEmptyString,
    pub total_seconds: LowerBoundInt<0>,
    pub remaining_seconds: LowerBoundInt<0>,
    pub expiration: NonEmptyString,
}

/// The mathematical view of [`Cooldown`].
pub struct CooldownV {
    pub ship_symbol: Seq<char>,
    pub total_seconds: int,
    pub remaining_seconds: int,
    pub expiration: Seq<char>,
}

impl DeepView for Cooldown {
    type V = CooldownV;

    open spec fn deep_view(&self) -> CooldownV {
        CooldownV {
            ship_symbol: self.ship_symbol.deep_view(),
            total_seconds: self.total_seconds.deep_view(),
            remaining_seconds: self.remaining_seconds.deep_view(),
            expiration: self.expiration.deep_view(),
        }
    }
}

/// Every constrained leaf of the view is within its bounds.
pub open spec fn cooldown_wf(v: CooldownV) -> bool {
    v.ship_symbol.len() > 0
        && 0 <= v.total_seconds && v.total_seconds <= i64::MAX as int
        && 0 <= v.remaining_seconds && v.remaining_seconds <= i64::MAX as int
        && v.expiration.len() > 0
}

/// The JSON shape of a view.
pub open spec fn cooldown_to_jv(v: CooldownV) -> JsonV {
    JsonV::Obj(seq![
        ("shipSymbol"@, JsonV::Str(v.ship_symbol)),
        ("totalSeconds"@, JsonV::Int(v.total_seconds)),
        ("remainingSeconds"@, JsonV::Int(v.remaining_seconds)),
        ("expiration"@, JsonV::Str(v.expiration)),
    ])
}

/// Extract a view from a JSON value.
pub open spec fn cooldown_of_jv(j: JsonV) -> Option<CooldownV> {
    match j {
        JsonV::Obj(es) => cooldown_of_obj(es),
        _ => None,
    }
}

/// Extract a view from an object's members.
pub open spec fn cooldown_of_obj(es: Seq<(Seq<char>, JsonV)>) -> Option<CooldownV> {
    match (
        get_nes(es, "shipSymbol"@),
        get_int_min(es, "totalSeconds"@, 0),
        get_int_min(es, "remainingSeconds"@, 0),
        get_nes(es, "expiration"@),
    ) {
        (Some(ship_symbol), Some(total_seconds), Some(remaining_seconds), Some(expiration)) => Some(CooldownV { ship_symbol, total_seconds, remaining_seconds, expiration }),
        _ => None,
    }
}

/// Writing a well-formed view and reading it back yields the view.
pub proof fn lemma_cooldown_round_trip(v: CooldownV)
    requires
        cooldown_wf(v),
    ensures
        cooldown_of_jv(cooldown_to_jv(v)) == Some(v),
{
    reveal_strlit("shipSymbol");
    reveal_strlit("totalSeconds");
    reveal_strlit("remainingSeconds");
    reveal_strlit("expiration");
    let es = cooldown_to_jv(v)->Obj_0;
    assert(es.len() == 4);
    assert(es[0].0 == "shipSymbol"@);
    assert(es[1].0 == "totalSeconds"@);
    assert(es[2].0 == "remainingSeconds"@);
    assert(es[3].0 == "expiration"@);
    assert("expiration"@[0] != 's');
    assert("shipSymbol"@[0] == 's');
    lemma_obj_get_at(es, 0);
    lemma_obj_get_at(es, 1);
    lemma_obj_get_at(es, 2);
    lemma_obj_get_at(es, 3);
}

/// The JSON shape of a well-formed view is representable: every integer
/// in it fits.
pub proof fn lemma_cooldown_to_jv_wf(v: CooldownV)
    requires
        cooldown_wf(v),
    ensures
        jv_wf(cooldown_to_jv(v)),
{
    let es = cooldown_to_jv(v)->Obj_0;
    assert forall|i: int| 0 <= i < es.len() implies jv_wf((#[trigger] es[i]).1) by {
        assert(jv_wf(es[0].1));
        assert(jv_wf(es[1].1));
        assert(jv_wf(es[2].1));
        assert(jv_wf(es[3].1));
    }
}

impl Cooldown {
    /// Encode this value as a JSON object.
    pub fn to_json(&self) -> (r: Json)
        ensures
            jv(r) == cooldown_to_jv(self.deep_view()),
    {
        let mut entries: Vec<(String, Json)> = Vec::new();
        entries.push((String::from_str("shipSymbol"), nes_json(&self.ship_symbol)));
        entries.push((String::from_str("totalSeconds"), lower_json(&self.total_seconds)));
        entries.push((String::from_str("remainingSeconds"), lower_json(&self.remaining_seconds)));
        entries.push((String::from_str("expiration"), nes_json(&self.expiration)));
        proof {
            lemma_entries_view(entries@);
            let ev = entries_view(entries@);
            let target = cooldown_to_jv(self.deep_view())->Obj_0;
            assert(entries@.len() == 4);
            assert(target.len() == 4);
            assert(entries@[0].0@ == "shipSymbol"@);
            assert(jv(entries@[0].1) == target[0].1);
            assert(ev[0] == target[0]);
            assert(entries@[1].0@ == "totalSeconds"@);
            assert(jv(entries@[1].1) == target[1].1);
            assert(ev[1] == target[1]);
            assert(entries@[2].0@ == "remainingSeconds"@);
            assert(jv(entries@[2].1) == target[2].1);
            assert(ev[2] == target[2]);
            assert(entries@[3].0@ == "expiration"@);
            assert(jv(entries@[3].1) == target[3].1);
            assert(ev[3] == target[3]);
            assert(ev =~= target);
        }
        Json::Obj(entries)
    }

    /// Decode a value; `None` exactly when the spec-level extraction
    /// fails, and every decoded value is well formed.
    pub fn from_json(j: &Json) -> (r: Option<Cooldown>)
        ensures
            match r {
                Some(v) => cooldown_of_jv(jv(*j)) == Some(v.deep_view()) && cooldown_wf(v.deep_view()),
                None => cooldown_of_jv(jv(*j)) is None,
            },
    {
        let entries = match j {
            Json::Obj(entries) => entries,
            _ => { return None; }
        };
        proof {
            assert(*j == Json::Obj(*entries));
        }
        let ship_symbol = match json_get_nes(entries, "shipSymbol") { Some(v) => v, None => { return None; } };
        let total_seconds = match json_get_lower::<0>(entries, "totalSeconds") { Some(v) => v, None => { return None; } };
        let remaining_seconds = match json_get_lower::<0>(entries, "remainingSeconds") { Some(v) => v, None => { return None; } };
        let expiration = match json_get_nes(entries, "expiration") { Some(v) => v, None => { return None; } };
        Some(Cooldown { ship_symbol, total_seconds, remaining_seconds, expiration })
    }
}

/// What one extraction produced.
#[derive(Debug)]
pub struct ExtractionYield {
    pub symbol: NonEmptyString,
    pub units: i32,
}

/// The mathematical view of [`ExtractionYield`].
pub struct ExtractionYieldV {
    pub symbol: Seq<char>,
    pub units: int,
}

impl DeepView for ExtractionYield {
    type V = ExtractionYieldV;

    open spec fn deep_view(&self) -> ExtractionYieldV {
        ExtractionYieldV {
            symbol: self.symbol.deep_view(),
            units: self.units as int,
        }
    }
}

/// Every constrained leaf of the view is within its bounds.
pub open spec fn extraction_yield_wf(v: ExtractionYieldV) -> bool {
    v.symbol.len() > 0
        && i32::MIN as int <= v.units && v.units <= i32::MAX as int
}

/// The JSON shape of a view.
pub open spec fn extraction_yield_to_jv(v: ExtractionYieldV) -> JsonV {
    JsonV::Obj(seq![
        ("symbol"@, JsonV::Str(v.symbol)),
        ("units"@, JsonV::Int(v.units)),
    ])
}

/// Extract a view from a JSON value.
pub open spec fn extraction_yield_of_jv(j: JsonV) -> Option<ExtractionYieldV> {
    match j {
        JsonV::Obj(es) => extraction_yield_of_obj(es),
        _ => None,
    }
}

/// Extract a view from an object's members.
pub open spec fn extraction_yield_of_obj(es: Seq<(Seq<char>, JsonV)>) -> Option<ExtractionYieldV> {
    match (
        get_nes(es, "symbol"@),
        get_i32(es, "units"@),
    ) {
        (Some(symbol), Some(units)) => Some(ExtractionYieldV { symbol, units }),
        _ => None,
    }
}

/// Writing a well-formed view and reading it back yields the view.
pub proof fn lemma_extraction_yield_round_trip(v: ExtractionYieldV)
    requires
        extraction_yield_wf(v),
    ensures
        extraction_yield_of_jv(extraction_yield_to_jv(v)) == Some(v),
{
    reveal_strlit("symbol");
    reveal_strlit("units");
    let es = extraction_yield_to_jv(v)->Obj_0;
    assert(es.len() == 2);
    assert(es[0].0 == "symbol"@);
    assert(es[1].0 == "units"@);
    lemma_obj_get_at(es, 0);
    lemma_obj_get_at(es, 1);
}

/// The JSON shape of a well-formed view is representable: every integer
/// in it fits.
pub proof fn lemma_extraction_yield_to_jv_wf(v: ExtractionYieldV)
    requires
        extraction_yield_wf(v),
    ensures
        jv_wf(extraction_yield_to_jv(v)),
{
    let es = extraction_yield_to_jv(v)->Obj_0;
    assert forall|i: int| 0 <= i < es.len() implies jv_wf((#[trigger] es[i]).1) by {
        assert(jv_wf(es[0].1));
        assert(jv_wf(es[1].1));
    }
}

impl ExtractionYield {
    /// Encode this value as a JSON object.
    pub fn to_json(&self) -> (r: Json)
        ensures
            jv(r) == extraction_yield_to_jv(self.deep_view()),
    {
        let mut entries: Vec<(String, Json)> = Vec::new();
        entries.push((String::from_str("symbol"), nes_json(&self.symbol)));
        entries.push((String::from_str("units"), i32_json(self.units)));
        proof {
            lemma_entries_view(entries@);
            let ev = entries_view(entries@);
            let target = extraction_yield_to_jv(self.deep_view())->Obj_0;
            assert(entries@.len() == 2);
            assert(target.len() == 2);
            assert(entries@[0].0@ == "symbol"@);
            assert(jv(entries@[0].1) == target[0].1);
            assert(ev[0] == target[0]);
            assert(entries@[1].0@ == "units"@);
            assert(jv(entries@[1].1) == target[1].1);
            assert(ev[1] == target[1]);
            assert(ev =~= target);
        }
        Json::Obj(entries)
    }

    /// Decode a value; `None` exactly when the spec-level extraction
    /// fails, and every decoded value is well formed.
    pub fn from_json(j: &Json) -> (r: Option<ExtractionYield>)
        ensures
            match r {
                Some(v) => extraction_yield_of_jv(jv(*j)) == Some(v.deep_view()) && extraction_yield_wf(v.deep_view()),
                None => extraction_yield_of_jv(jv(*j)) is None,
            },
    {
        let entries = match j {
            Json::Obj(entries) => entries,
            _ => { return None; }
        };
        proof {
            assert(*j == Json::Obj(*entries));
        }
        let symbol = match json_get_nes(entries, "symbol") { Some(v) => v, None => { return None; } };
        let units = match json_get_i32(entries, "units") { Some(v) => v, None => { return None; } };
        Some(ExtractionYield { symbol, units })
    }
}

/// The result of an extraction by a ship.
#[derive(Debug)]
pub struct Extraction {
    pub ship_symbol: NonEmptyString,
    pub yield_: ExtractionYield,
}

/// The mathematical view of [`Extraction`].
pub struct ExtractionV {
    pub ship_symbol: Seq<char>,
    pub yield_: ExtractionYieldV,
}

impl DeepView for Extraction {
    type V = ExtractionV;

    open spec fn deep_view(&self) -> ExtractionV {
        ExtractionV {
            ship_symbol: self.ship_symbol.deep_view(),
            yield_: self.yield_.deep_view(),
        }
    }
}

/// Every constrained leaf of the view is within its bounds.
pub open spec fn extraction_wf(v: ExtractionV) -> bool {
    v.ship_symbol.len() > 0
        && extraction_yield_wf(v.yield_)
}

/// The JSON shape of a view.
pub open spec fn extraction_to_jv(v: ExtractionV) -> JsonV {
    JsonV::Obj(seq![
        ("shipSymbol"@, JsonV::Str(v.ship_symbol)),
        ("yield"@, extraction_yield_to_jv(v.yield_)),
    ])
}

/// Extract a view from a JSON value.
pub open spec fn extraction_of_jv(j: JsonV) -> Option<ExtractionV> {
    match j {
        JsonV::Obj(es) => extraction_of_obj(es),
        _ => None,
    }
}

/// Extract a view from an object's members.
pub open spec fn extraction_of_obj(es: Seq<(Seq<char>, JsonV)>) -> Option<ExtractionV> {
    match (
        get_nes(es, "shipSymbol"@),
        (match obj_get(es, "yield"@) { Some(sj) => extraction_yield_of_jv(sj), None => None }),
    ) {
        (Some(ship_symbol), Some(yield_)) => Some(ExtractionV { ship_symbol, yield_ }),
        _ => None,
    }
}

/// Writing a well-formed view and reading it back yields the view.
pub proof fn lemma_extraction_round_trip(v: ExtractionV)
    requires
        extraction_wf(v),
    ensures
        extraction_of_jv(extraction_to_jv(v)) == Some(v),
{
    reveal_strlit("shipSymbol");
    reveal_strlit("yield");
    lemma_extraction_yield_round_trip(v.yield_);
    let es = extraction_to_jv(v)->Obj_0;
    assert(es.len() == 2);
    assert(es[0].0 == "shipSymbol"@);
    assert(es[1].0 == "yield"@);
    lemma_obj_get_at(es, 0);
    lemma_obj_get_at(es, 1);
}

/// The JSON shape of a well-formed view is representable: every integer
/// in it fits.
pub proof fn lemma_extraction_to_jv_wf(v: ExtractionV)
    requires
        extraction_wf(v),
    ensures
        jv_wf(extraction_to_jv(v)),
{
    lemma_extraction_yield_to_jv_wf(v.yield_);
    let es = extraction_to_jv(v)->Obj_0;
    assert forall|i: int| 0 <= i < es.len() implies jv_wf((#[trigger] es[i]).1) by {
        assert(jv_wf(es[0].1));
        assert(jv_wf(es[1].1));
    }
}

impl Extraction {
    /// Encode this value as a JSON object.
    pub fn to_json(&self) -> (r: Json)
        ensures
            jv(r) == extraction_to_jv(self.deep_view()),
    {
        let mut entries: Vec<(String, Json)> = Vec::new();
        entries.push((String::from_str("shipSymbol"), nes_json(&self.ship_symbol)));
        entries.push((String::from_str("yield"), self.yield_.to_json()));
        proof {
            lemma_entries_view(entries@);
            let ev = entries_view(entries@);
            let target = extraction_to_jv(self.deep_view())->Obj_0;
            assert(entries@.len() == 2);
            assert(target.len() == 2);
            assert(entries@[0].0@ == "shipSymbol"@);
            assert(jv(entries@[0].1) == target[0].1);
            assert(ev[0] == target[0]);
            assert(entries@[1].0@ == "yield"@);
            assert(jv(entries@[1].1) == target[1].1);
            assert(ev[1] == target[1]);
            assert(ev =~= target);
        }
        Json::Obj(entries)
    }

    /// Decode a value; `None` exactly when the spec-level extraction
    /// fails, and every decoded value is well formed.
    pub fn from_json(j: &Json) -> (r: Option<Extraction>)
        ensures
            match r {
                Some(v) => extraction_of_jv(jv(*j)) == Some(v.deep_view()) && extraction_wf(v.deep_view()),
                None => extraction_of_jv(jv(*j)) is None,
            },
    {
        let entries = match j {
            Json::Obj(entries) => entries,
            _ => { return None; }
        };
        proof {
            assert(*j == Json::Obj(*entries));
        }
        let ship_symbol = match json_get_nes(entries, "shipSymbol") { Some(v) => v, None => { return None; } };
        let yield_ = match json_get(entries, "yield") {
            Some(sj) => match ExtractionYield::from_json(sj) {
                Some(v) => v,
                None => { return None; }
            },
            None => { return None; }
        };
        Some(Extraction { ship_symbol, yield_ })
    }
}

} // verus!
