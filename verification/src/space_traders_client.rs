//! The client: the session cache of server-confirmed state, every stateful
//! operation as a verified state transition, and the save-file codec.
//!
//! Each operation that talks to the server is split in two. The `*_begin`
//! function checks the operation's preconditions against the cache and either
//! finishes locally (an idempotent short-circuit) or hands back the exact
//! [`HttpRequest`] to perform. The `*_complete` function takes the server's
//! response body, already parsed into a [`Json`] tree, classifies its
//! envelope, and applies the confirmed change to the cache; on any failure
//! the cache is left untouched. The surrounding binary only moves bytes.

use vstd::prelude::*;

use crate::agent::{agent_of_jv, agent_to_jv, agent_wf, lemma_agent_round_trip, lemma_agent_to_jv_wf, Agent, AgentV};
use crate::codec::{get_nes, json_get, json_get_nes, lemma_obj_get_at, nes_json};
use crate::conditional_types::{Id, NonEmptyString, Symbol};
use crate::contract::{
    contract_of_jv, contract_seq_of_jv, contract_seq_to_jv, contract_to_jv, contract_wf,
    lemma_contract_round_trip, lemma_contract_seq_round_trip, lemma_contract_seq_to_jv_wf,
    Contract, ContractV,
};
use crate::faction::{
    faction_of_jv, faction_to_jv, faction_wf, lemma_faction_round_trip, lemma_faction_to_jv_wf,
    Faction, FactionSymbol, FactionV,
};
use crate::json::{
    chars_to_string_range, entries_view, jv, jv_seq, jv_wf, lemma_entries_view, lemma_parse_render,
    lemma_ren_no_nl, obj_get, parse_json, parse_json_spec, ren, str_eq, str_to_chars, Json, JsonV,
};
use crate::json::render_json;
use crate::ship::{
    cargo_of_jv, cargo_to_jv, cargo_wf, cooldown_of_jv, cooldown_to_jv, cooldown_wf,
    extraction_of_jv, extraction_to_jv, extraction_wf, lemma_cargo_round_trip,
    lemma_cooldown_round_trip, lemma_extraction_round_trip, lemma_nav_round_trip,
    lemma_ship_round_trip, lemma_ship_seq_round_trip, lemma_shipyard_transaction_round_trip,
    lemma_ship_seq_to_jv_wf, nav_of_jv, nav_to_jv, nav_wf, ship_of_jv, ship_seq_of_jv,
    ship_seq_to_jv, ship_to_jv, ship_wf,
    shipyard_of_jv, shipyard_transaction_of_jv, shipyard_transaction_to_jv,
    shipyard_transaction_wf, Cargo, CargoV, Cooldown, CooldownV, Extraction, ExtractionV, Nav,
    NavV, Ship, ShipStatus, ShipType, ShipV, Shipyard, ShipyardTransaction,
    ShipyardTransactionV, Survey, survey_to_jv,
};
use crate::waypoint::{
    waypoint_of_jv, waypoint_seq_of_jv, Waypoint, WaypointTraitSymbols, WaypointV,
};
use crate::{classify_spec, classify_response, Envelope, EnvelopeV, SpaceTradersError};

verus! {

/// The session cache: the in-memory mirror of server-confirmed state.
#[derive(Debug)]
pub struct CachedInfo {
    pub agent: Agent,
    pub contracts: Vec<Contract>,
    pub faction: Faction,
    pub ships: Vec<Ship>,
}

/// The mathematical view of [`CachedInfo`].
pub struct CachedInfoV {
    pub agent: AgentV,
    pub contracts: Seq<ContractV>,
    pub faction: FactionV,
    pub ships: Seq<ShipV>,
}

impl DeepView for CachedInfo {
    type V = CachedInfoV;

    open spec fn deep_view(&self) -> CachedInfoV {
        CachedInfoV {
            agent: self.agent.deep_view(),
            contracts: self.contracts.deep_view(),
            faction: self.faction.deep_view(),
            ships: self.ships.deep_view(),
        }
    }
}

/// Every constrained leaf of the view is within its bounds.
pub open spec fn cached_info_wf(v: CachedInfoV) -> bool {
    agent_wf(v.agent)
        && (forall|i: int| 0 <= i < v.contracts.len() ==> contract_wf((#[trigger] v.contracts[i])))
        && faction_wf(v.faction)
        && (forall|i: int| 0 <= i < v.ships.len() ==> ship_wf((#[trigger] v.ships[i])))
}

/// The JSON shape of a view.
pub open spec fn cached_info_to_jv(v: CachedInfoV) -> JsonV {
    JsonV::Obj(seq![
        ("agent"@, agent_to_jv(v.agent)),
        ("contracts"@, JsonV::Arr(contract_seq_to_jv(v.contracts))),
        ("faction"@, faction_to_jv(v.faction)),
        ("ships"@, JsonV::Arr(ship_seq_to_jv(v.ships))),
    ])
}

/// Extract a view from a JSON value.
pub open spec fn cached_info_of_jv(j: JsonV) -> Option<CachedInfoV> {
    match j {
        JsonV::Obj(es) => cached_info_of_obj(es),
        _ => None,
    }
}

/// Extract a view from an object's members.
pub open spec fn cached_info_of_obj(es: Seq<(Seq<char>, JsonV)>) -> Option<CachedInfoV> {
    match (
        (match obj_get(es, "agent"@) { Some(sj) => agent_of_jv(sj), None => None }),
        (match obj_get(es, "contracts"@) { Some(JsonV::Arr(items)) => contract_seq_of_jv(items), _ => None }),
        (match obj_get(es, "faction"@) { Some(sj) => faction_of_jv(sj), None => None }),
        (match obj_get(es, "ships"@) { Some(JsonV::Arr(items)) => ship_seq_of_jv(items), _ => None }),
    ) {
        (Some(agent), Some(contracts), Some(faction), Some(ships)) => Some(CachedInfoV { agent, contracts, faction, ships }),
        _ => None,
    }
}

/// Writing a well-formed view and reading it back yields the view.
pub proof fn lemma_cached_info_round_trip(v: CachedInfoV)
    requires
        cached_info_wf(v),
    ensures
        cached_info_of_jv(cached_info_to_jv(v)) == Some(v),
{
    reveal_strlit("agent");
    reveal_strlit("contracts");
    reveal_strlit("faction");
    reveal_strlit("ships");
    lemma_agent_round_trip(v.agent);
    lemma_contract_seq_round_trip(v.contracts);
    lemma_faction_round_trip(v.faction);
    lemma_ship_seq_round_trip(v.ships);
    let es = cached_info_to_jv(v)->Obj_0;
    assert(es.len() == 4);
    assert(es[0].0 == "agent"@);
    assert(es[1].0 == "contracts"@);
    assert(es[2].0 == "faction"@);
    assert(es[3].0 == "ships"@);
    assert("contracts"@.len() != "agent"@.len());
    assert("faction"@.len() != "agent"@.len());
    assert("faction"@.len() != "contracts"@.len());
    assert("ships"@[0] != "agent"@[0]);
    assert("ships"@.len() != "contracts"@.len());
    assert("ships"@.len() != "faction"@.len());
    lemma_obj_get_at(es, 0);
    lemma_obj_get_at(es, 1);
    lemma_obj_get_at(es, 2);
    lemma_obj_get_at(es, 3);
}

impl CachedInfo {
    /// Encode this value as a JSON object.
    pub fn to_json(&self) -> (r: Json)
        ensures
            jv(r) == cached_info_to_jv(self.deep_view()),
    {
        let mut entries: Vec<(String, Json)> = Vec::new();
        entries.push((String::from_str("agent"), self.agent.to_json()));
        entries.push((String::from_str("contracts"), Contract::vec_json(&self.contracts)));
        entries.push((String::from_str("faction"), self.faction.to_json()));
        entries.push((String::from_str("ships"), Ship::vec_json(&self.ships)));
        proof {
            lemma_entries_view(entries@);
            let ev = entries_view(entries@);
            let target = cached_info_to_jv(self.deep_view())->Obj_0;
            assert(entries@.len() == 4);
            assert(target.len() == 4);
            assert(entries@[0].0@ == "agent"@);
            assert(jv(entries@[0].1) == target[0].1);
            assert(ev[0] == target[0]);
            assert(entries@[1].0@ == "contracts"@);
            assert(jv(entries@[1].1) == target[1].1);
            assert(ev[1] == target[1]);
            assert(entries@[2].0@ == "faction"@);
            assert(jv(entries@[2].1) == target[2].1);
            assert(ev[2] == target[2]);
            assert(entries@[3].0@ == "ships"@);
            assert(jv(entries@[3].1) == target[3].1);
            assert(ev[3] == target[3]);
            assert(ev =~= target);
        }
        Json::Obj(entries)
    }

    /// Decode a value; `None` exactly when the spec-level extraction
    /// fails, and every decoded value is well formed.
    pub fn from_json(j: &Json) -> (r: Option<CachedInfo>)
        ensures
            match r {
                Some(v) => cached_info_of_jv(jv(*j)) == Some(v.deep_view()) && cached_info_wf(v.deep_view()),
                None => cached_info_of_jv(jv(*j)) is None,
            },
    {
        let entries = match j {
            Json::Obj(entries) => entries,
            _ => { return None; }
        };
        proof {
            assert(*j == Json::Obj(*entries));
        }
        let agent = match json_get(entries, "agent") {
            Some(sj) => match Agent::from_json(sj) {
                Some(v) => v,
                None => { return None; }
            },
            None => { return None; }
        };
        let contracts = match json_get(entries, "contracts") {
            Some(sj) => match Contract::vec_from_json_value(sj) {
                Some(v) => v,
                None => { return None; }
            },
            None => { return None; }
        };
        let faction = match json_get(entries, "faction") {
            Some(sj) => match Faction::from_json(sj) {
                Some(v) => v,
                None => { return None; }
            },
            None => { return None; }
        };
        let ships = match json_get(entries, "ships") {
            Some(sj) => match Ship::vec_from_json_value(sj) {
                Some(v) => v,
                None => { return None; }
            },
            None => { return None; }
        };
        Some(CachedInfo { agent, contracts, faction, ships })
    }
}

/// The payload of a successful registration.
#[derive(Debug)]
pub struct RegistrationData {
    pub token: NonEmptyString,
    pub agent: Agent,
    pub contract: Contract,
    pub faction: Faction,
    pub ship: Ship,
}

/// The mathematical view of [`RegistrationData`].
pub struct RegistrationDataV {
    pub token: Seq<char>,
    pub agent: AgentV,
    pub contract: ContractV,
    pub faction: FactionV,
    pub ship: ShipV,
}

impl DeepView for RegistrationData {
    type V = RegistrationDataV;

    open spec fn deep_view(&self) -> RegistrationDataV {
        RegistrationDataV {
            token: self.token.deep_view(),
            agent: self.agent.deep_view(),
            contract: self.contract.deep_view(),
            faction: self.faction.deep_view(),
            ship: self.ship.deep_view(),
        }
    }
}

/// Every constrained leaf of the view is within its bounds.
pub open spec fn registration_data_wf(v: RegistrationDataV) -> bool {
    v.token.len() > 0
        && agent_wf(v.agent)
        && contract_wf(v.contract)
        && faction_wf(v.faction)
        && ship_wf(v.ship)
}

/// The JSON shape of a view.
pub open spec fn registration_data_to_jv(v: RegistrationDataV) -> JsonV {
    JsonV::Obj(seq![
        ("token"@, JsonV::Str(v.token)),
        ("agent"@, agent_to_jv(v.agent)),
        ("contract"@, contract_to_jv(v.contract)),
        ("faction"@, faction_to_jv(v.faction)),
        ("ship"@, ship_to_jv(v.ship)),
    ])
}

/// Extract a view from a JSON value.
pub open spec fn registration_data_of_jv(j: JsonV) -> Option<RegistrationDataV> {
    match j {
        JsonV::Obj(es) => registration_data_of_obj(es),
        _ => None,
    }
}

/// Extract a view from an object's members.
pub open spec fn registration_data_of_obj(es: Seq<(Seq<char>, JsonV)>) -> Option<RegistrationDataV> {
    match (
        get_nes(es, "token"@),
        (match obj_get(es, "agent"@) { Some(sj) => agent_of_jv(sj), None => None }),
        (match obj_get(es, "contract"@) { Some(sj) => contract_of_jv(sj), None => None }),
        (match obj_get(es, "faction"@) { Some(sj) => faction_of_jv(sj), None => None }),
        (match obj_get(es, "ship"@) { Some(sj) => ship_of_jv(sj), None => None }),
    ) {
        (Some(token), Some(agent), Some(contract), Some(faction), Some(ship)) => Some(RegistrationDataV { token, agent, contract, faction, ship }),
        _ => None,
    }
}

/// Writing a well-formed view and reading it back yields the view.
pub proof fn lemma_registration_data_round_trip(v: RegistrationDataV)
    requires
        registration_data_wf(v),
    ensures
        registration_data_of_jv(registration_data_to_jv(v)) == Some(v),
{
    reveal_strlit("token");
    reveal_strlit("agent");
    reveal_strlit("contract");
    reveal_strlit("faction");
    reveal_strlit("ship");
    lemma_agent_round_trip(v.agent);
    lemma_contract_round_trip(v.contract);
    lemma_faction_round_trip(v.faction);
    lemma_ship_round_trip(v.ship);
    let es = registration_data_to_jv(v)->Obj_0;
    assert(es.len() == 5);
    assert(es[0].0 == "token"@);
    assert(es[1].0 == "agent"@);
    assert(es[2].0 == "contract"@);
    assert(es[3].0 == "faction"@);
    assert(es[4].0 == "ship"@);
    assert("agent"@[0] != "token"@[0]);
    assert("contract"@.len() != "token"@.len());
    assert("contract"@.len() != "agent"@.len());
    assert("faction"@.len() != "token"@.len());
    assert("faction"@.len() != "agent"@.len());
    assert("faction"@.len() != "contract"@.len());
    assert("ship"@.len() != "token"@.len());
    assert("ship"@.len() != "agent"@.len());
    assert("ship"@.len() != "contract"@.len());
    assert("ship"@.len() != "faction"@.len());
    lemma_obj_get_at(es, 0);
    lemma_obj_get_at(es, 1);
    lemma_obj_get_at(es, 2);
    lemma_obj_get_at(es, 3);
    lemma_obj_get_at(es, 4);
}

impl RegistrationData {
    /// Encode this value as a JSON object.
    pub fn to_json(&self) -> (r: Json)
        ensures
            jv(r) == registration_data_to_jv(self.deep_view()),
    {
        let mut entries: Vec<(String, Json)> = Vec::new();
        entries.push((String::from_str("token"), nes_json(&self.token)));
        entries.push((String::from_str("agent"), self.agent.to_json()));
        entries.push((String::from_str("contract"), self.contract.to_json()));
        entries.push((String::from_str("faction"), self.faction.to_json()));
        entries.push((String::from_str("ship"), self.ship.to_json()));
        proof {
            lemma_entries_view(entries@);
            let ev = entries_view(entries@);
            let target = registration_data_to_jv(self.deep_view())->Obj_0;
            assert(entries@.len() == 5);
            assert(target.len() == 5);
            assert(entries@[0].0@ == "token"@);
            assert(jv(entries@[0].1) == target[0].1);
            assert(ev[0] == target[0]);
            assert(entries@[1].0@ == "agent"@);
            assert(jv(entries@[1].1) == target[1].1);
            assert(ev[1] == target[1]);
            assert(entries@[2].0@ == "contract"@);
            assert(jv(entries@[2].1) == target[2].1);
            assert(ev[2] == target[2]);
            assert(entries@[3].0@ == "faction"@);
            assert(jv(entries@[3].1) == target[3].1);
            assert(ev[3] == target[3]);
            assert(entries@[4].0@ == "ship"@);
            assert(jv(entries@[4].1) == target[4].1);
            assert(ev[4] == target[4]);
            assert(ev =~= target);
        }
        Json::Obj(entries)
    }

    /// Decode a value; `None` exactly when the spec-level extraction
    /// fails, and every decoded value is well formed.
    pub fn from_json(j: &Json) -> (r: Option<RegistrationData>)
        ensures
            match r {
                Some(v) => registration_data_of_jv(jv(*j)) == Some(v.deep_view()) && registration_data_wf(v.deep_view()),
                None => registration_data_of_jv(jv(*j)) is None,
            },
    {
        let entries = match j {
            Json::Obj(entries) => entries,
            _ => { return None; }
        };
        proof {
            assert(*j == Json::Obj(*entries));
        }
        let token = match json_get_nes(entries, "token") { Some(v) => v, None => { return None; } };
        let agent = match json_get(entries, "agent") {
            Some(sj) => match Agent::from_json(sj) {
                Some(v) => v,
                None => { return None; }
            },
            None => { return None; }
        };
        let contract = match json_get(entries, "contract") {
            Some(sj) => match Contract::from_json(sj) {
                Some(v) => v,
                None => { return None; }
            },
            None => { return None; }
        };
        let faction = match json_get(entries, "faction") {
            Some(sj) => match Faction::from_json(sj) {
                Some(v) => v,
                None => { return None; }
            },
            None => { return None; }
        };
        let ship = match json_get(entries, "ship") {
            Some(sj) => match Ship::from_json(sj) {
                Some(v) => v,
                None => { return None; }
            },
            None => { return None; }
        };
        Some(RegistrationData { token, agent, contract, faction, ship })
    }
}

/// The payload of a successful contract acceptance.
#[derive(Debug)]
pub struct AcceptData {
    pub agent: Agent,
    pub contract: Contract,
}

/// The mathematical view of [`AcceptData`].
pub struct AcceptDataV {
    pub agent: AgentV,
    pub contract: ContractV,
}

impl DeepView for AcceptData {
    type V = AcceptDataV;

    open spec fn deep_view(&self) -> AcceptDataV {
        AcceptDataV {
            agent: self.agent.deep_view(),
            contract: self.contract.deep_view(),
        }
    }
}

/// Every constrained leaf of the view is within its bounds.
pub open spec fn accept_data_wf(v: AcceptDataV) -> bool {
    agent_wf(v.agent)
        && contract_wf(v.contract)
}

/// The JSON shape of a view.
pub open spec fn accept_data_to_jv(v: AcceptDataV) -> JsonV {
    JsonV::Obj(seq![
        ("agent"@, agent_to_jv(v.agent)),
        ("contract"@, contract_to_jv(v.contract)),
    ])
}

/// Extract a view from a JSON value.
pub open spec fn accept_data_of_jv(j: JsonV) -> Option<AcceptDataV> {
    match j {
        JsonV::Obj(es) => accept_data_of_obj(es),
        _ => None,
    }
}

/// Extract a view from an object's members.
pub open spec fn accept_data_of_obj(es: Seq<(Seq<char>, JsonV)>) -> Option<AcceptDataV> {
    match (
        (match obj_get(es, "agent"@) { Some(sj) => agent_of_jv(sj), None => None }),
        (match obj_get(es, "contract"@) { Some(sj) => contract_of_jv(sj), None => None }),
    ) {
        (Some(agent), Some(contract)) => Some(AcceptDataV { agent, contract }),
        _ => None,
    }
}

/// Writing a well-formed view and reading it back yields the view.
pub proof fn lemma_accept_data_round_trip(v: AcceptDataV)
    requires
        accept_data_wf(v),
    ensures
        accept_data_of_jv(accept_data_to_jv(v)) == Some(v),
{
    reveal_strlit("agent");
    reveal_strlit("contract");
    lemma_agent_round_trip(v.agent);
    lemma_contract_round_trip(v.contract);
    let es = accept_data_to_jv(v)->Obj_0;
    assert(es.len() == 2);
    assert(es[0].0 == "agent"@);
    assert(es[1].0 == "contract"@);
    assert("contract"@.len() != "agent"@.len());
    lemma_obj_get_at(es, 0);
    lemma_obj_get_at(es, 1);
}

impl AcceptData {
    /// Encode this value as a JSON object.
    pub fn to_json(&self) -> (r: Json)
        ensures
            jv(r) == accept_data_to_jv(self.deep_view()),
    {
        let mut entries: Vec<(String, Json)> = Vec::new();
        entries.push((String::from_str("agent"), self.agent.to_json()));
        entries.push((String::from_str("contract"), self.contract.to_json()));
        proof {
            lemma_entries_view(entries@);
            let ev = entries_view(entries@);
            let target = accept_data_to_jv(self.deep_view())->Obj_0;
            assert(entries@.len() == 2);
            assert(target.len() == 2);
            assert(entries@[0].0@ == "agent"@);
            assert(jv(entries@[0].1) == target[0].1);
            assert(ev[0] == target[0]);
            assert(entries@[1].0@ == "contract"@);
            assert(jv(entries@[1].1) == target[1].1);
            assert(ev[1] == target[1]);
            assert(ev =~= target);
        }
        Json::Obj(entries)
    }

    /// Decode a value; `None` exactly when the spec-level extraction
    /// fails, and every decoded value is well formed.
    pub fn from_json(j: &Json) -> (r: Option<AcceptData>)
        ensures
            match r {
                Some(v) => accept_data_of_jv(jv(*j)) == Some(v.deep_view()) && accept_data_wf(v.deep_view()),
                None => accept_data_of_jv(jv(*j)) is None,
            },
    {
        let entries = match j {
            Json::Obj(entries) => entries,
            _ => { return None; }
        };
        proof {
            assert(*j == Json::Obj(*entries));
        }
        let agent = match json_get(entries, "agent") {
            Some(sj) => match Agent::from_json(sj) {
                Some(v) => v,
                None => { return None; }
            },
            None => { return None; }
        };
        let contract = match json_get(entries, "contract") {
            Some(sj) => match Contract::from_json(sj) {
                Some(v) => v,
                None => { return None; }
            },
            None => { return None; }
        };
        Some(AcceptData { agent, contract })
    }
}

/// The payload of a successful dock or orbit call.
#[derive(Debug)]
pub struct NavData {
    pub nav: Nav,
}

/// The mathematical view of [`NavData`].
pub struct NavDataV {
    pub nav: NavV,
}

impl DeepView for NavData {
    type V = NavDataV;

    open spec fn deep_view(&self) -> NavDataV {
        NavDataV {
            nav: self.nav.deep_view(),
        }
    }
}

/// Every constrained leaf of the view is within its bounds.
pub open spec fn nav_data_wf(v: NavDataV) -> bool {
    nav_wf(v.nav)
}

/// The JSON shape of a view.
pub open spec fn nav_data_to_jv(v: NavDataV) -> JsonV {
    JsonV::Obj(seq![
        ("nav"@, nav_to_jv(v.nav)),
    ])
}

/// Extract a view from a JSON value.
pub open spec fn nav_data_of_jv(j: JsonV) -> Option<NavDataV> {
    match j {
        JsonV::Obj(es) => nav_data_of_obj(es),
        _ => None,
    }
}

/// Extract a view from an object's members.
pub open spec fn nav_data_of_obj(es: Seq<(Seq<char>, JsonV)>) -> Option<NavDataV> {
    match (
        (match obj_get(es, "nav"@) { Some(sj) => nav_of_jv(sj), None => None }),
    ) {
        (Some(nav),) => Some(NavDataV { nav }),
        _ => None,
    }
}

/// Writing a well-formed view and reading it back yields the view.
pub proof fn lemma_nav_data_round_trip(v: NavDataV)
    requires
        nav_data_wf(v),
    ensures
        nav_data_of_jv(nav_data_to_jv(v)) == Some(v),
{
    reveal_strlit("nav");
    lemma_nav_round_trip(v.nav);
    let es = nav_data_to_jv(v)->Obj_0;
    assert(es.len() == 1);
    assert(es[0].0 == "nav"@);
    lemma_obj_get_at(es, 0);
}

impl NavData {
    /// Encode this value as a JSON object.
    pub fn to_json(&self) -> (r: Json)
        ensures
            jv(r) == nav_data_to_jv(self.deep_view()),
    {
        let mut entries: Vec<(String, Json)> = Vec::new();
        entries.push((String::from_str("nav"), self.nav.to_json()));
        proof {
            lemma_entries_view(entries@);
            let ev = entries_view(entries@);
            let target = nav_data_to_jv(self.deep_view())->Obj_0;
            assert(entries@.len() == 1);
            assert(target.len() == 1);
            assert(entries@[0].0@ == "nav"@);
            assert(jv(entries@[0].1) == target[0].1);
            assert(ev[0] == target[0]);
            assert(ev =~= target);
        }
        Json::Obj(entries)
    }

    /// Decode a value; `None` exactly when the spec-level extraction
    /// fails, and every decoded value is well formed.
    pub fn from_json(j: &Json) -> (r: Option<NavData>)
        ensures
            match r {
                Some(v) => nav_data_of_jv(jv(*j)) == Some(v.deep_view()) && nav_data_wf(v.deep_view()),
                None => nav_data_of_jv(jv(*j)) is None,
            },
    {
        let entries = match j {
            Json::Obj(entries) => entries,
            _ => { return None; }
        };
        proof {
            assert(*j == Json::Obj(*entries));
        }
        let nav = match json_get(entries, "nav") {
            Some(sj) => match Nav::from_json(sj) {
                Some(v) => v,
                None => { return None; }
            },
            None => { return None; }
        };
        Some(NavData { nav })
    }
}

/// The payload of a successful extraction.
#[derive(Debug)]
pub struct ExtractData {
    pub cooldown: Cooldown,
    pub extraction: Extraction,
    pub cargo: Cargo,
}

/// The mathematical view of [`ExtractData`].
pub struct ExtractDataV {
    pub cooldown: CooldownV,
    pub extraction: ExtractionV,
    pub cargo: CargoV,
}

impl DeepView for ExtractData {
    type V = ExtractDataV;

    open spec fn deep_view(&self) -> ExtractDataV {
        ExtractDataV {
            cooldown: self.cooldown.deep_view(),
            extraction: self.extraction.deep_view(),
            cargo: self.cargo.deep_view(),
        }
    }
}

/// Every constrained leaf of the view is within its bounds.
pub open spec fn extract_data_wf(v: ExtractDataV) -> bool {
    cooldown_wf(v.cooldown)
        && extraction_wf(v.extraction)
        && cargo_wf(v.cargo)
}

/// The JSON shape of a view.
pub open spec fn extract_data_to_jv(v: ExtractDataV) -> JsonV {
    JsonV::Obj(seq![
        ("cooldown"@, cooldown_to_jv(v.cooldown)),
        ("extraction"@, extraction_to_jv(v.extraction)),
        ("cargo"@, cargo_to_jv(v.cargo)),
    ])
}

/// Extract a view from a JSON value.
pub open spec fn extract_data_of_jv(j: JsonV) -> Option<ExtractDataV> {
    match j {
        JsonV::Obj(es) => extract_data_of_obj(es),
        _ => None,
    }
}

/// Extract a view from an object's members.
pub open spec fn extract_data_of_obj(es: Seq<(Seq<char>, JsonV)>) -> Option<ExtractDataV> {
    match (
        (match obj_get(es, "cooldown"@) { Some(sj) => cooldown_of_jv(sj), None => None }),
        (match obj_get(es, "extraction"@) { Some(sj) => extraction_of_jv(sj), None => None }),
        (match obj_get(es, "cargo"@) { Some(sj) => cargo_of_jv(sj), None => None }),
    ) {
        (Some(cooldown), Some(extraction), Some(cargo)) => Some(ExtractDataV { cooldown, extraction, cargo }),
        _ => None,
    }
}

/// Writing a well-formed view and reading it back yields the view.
pub proof fn lemma_extract_data_round_trip(v: ExtractDataV)
    requires
        extract_data_wf(v),
    ensures
        extract_data_of_jv(extract_data_to_jv(v)) == Some(v),
{
    reveal_strlit("cooldown");
    reveal_strlit("extraction");
    reveal_strlit("cargo");
    lemma_cooldown_round_trip(v.cooldown);
    lemma_extraction_round_trip(v.extraction);
    lemma_cargo_round_trip(v.cargo);
    let es = extract_data_to_jv(v)->Obj_0;
    assert(es.len() == 3);
    assert(es[0].0 == "cooldown"@);
    assert(es[1].0 == "extraction"@);
    assert(es[2].0 == "cargo"@);
    assert("extraction"@.len() != "cooldown"@.len());
    assert("cargo"@.len() != "cooldown"@.len());
    assert("cargo"@.len() != "extraction"@.len());
    lemma_obj_get_at(es, 0);
    lemma_obj_get_at(es, 1);
    lemma_obj_get_at(es, 2);
}

impl ExtractData {
    /// Encode this value as a JSON object.
    pub fn to_json(&self) -> (r: Json)
        ensures
            jv(r) == extract_data_to_jv(self.deep_view()),
    {
        let mut entries: Vec<(String, Json)> = Vec::new();
        entries.push((String::from_str("cooldown"), self.cooldown.to_json()));
        entries.push((String::from_str("extraction"), self.extraction.to_json()));
        entries.push((String::from_str("cargo"), self.cargo.to_json()));
        proof {
            lemma_entries_view(entries@);
            let ev = entries_view(entries@);
            let target = extract_data_to_jv(self.deep_view())->Obj_0;
            assert(entries@.len() == 3);
            assert(target.len() == 3);
            assert(entries@[0].0@ == "cooldown"@);
            assert(jv(entries@[0].1) == target[0].1);
            assert(ev[0] == target[0]);
            assert(entries@[1].0@ == "extraction"@);
            assert(jv(entries@[1].1) == target[1].1);
            assert(ev[1] == target[1]);
            assert(entries@[2].0@ == "cargo"@);
            assert(jv(entries@[2].1) == target[2].1);
            assert(ev[2] == target[2]);
            assert(ev =~= target);
        }
        Json::Obj(entries)
    }

    /// Decode a value; `None` exactly when the spec-level extraction
    /// fails, and every decoded value is well formed.
    pub fn from_json(j: &Json) -> (r: Option<ExtractData>)
        ensures
            match r {
                Some(v) => extract_data_of_jv(jv(*j)) == Some(v.deep_view()) && extract_data_wf(v.deep_view()),
                None => extract_data_of_jv(jv(*j)) is None,
            },
    {
        let entries = match j {
            Json::Obj(entries) => entries,
            _ => { return None; }
        };
        proof {
            assert(*j == Json::Obj(*entries));
        }
        let cooldown = match json_get(entries, "cooldown") {
            Some(sj) => match Cooldown::from_json(sj) {
                Some(v) => v,
                None => { return None; }
            },
            None => { return None; }
        };
        let extraction = match json_get(entries, "extraction") {
            Some(sj) => match Extraction::from_json(sj) {
                Some(v) => v,
                None => { return None; }
            },
            None => { return None; }
        };
        let cargo = match json_get(entries, "cargo") {
            Some(sj) => match Cargo::from_json(sj) {
                Some(v) => v,
                None => { return None; }
            },
            None => { return None; }
        };
        Some(ExtractData { cooldown, extraction, cargo })
    }
}

/// The payload of a successful ship purchase.
#[derive(Debug)]
pub struct BuyShipData {
    pub agent: Agent,
    pub ship: Ship,
    pub transactions: ShipyardTransaction,
}

/// The mathematical view of [`BuyShipData`].
pub struct BuyShipDataV {
    pub agent: AgentV,
    pub ship: ShipV,
    pub transactions: ShipyardTransactionV,
}

impl DeepView for BuyShipData {
    type V = BuyShipDataV;

    open spec fn deep_view(&self) -> BuyShipDataV {
        BuyShipDataV {
            agent: self.agent.deep_view(),
            ship: self.ship.deep_view(),
            transactions: self.transactions.deep_view(),
        }
    }
}

/// Every constrained leaf of the view is within its bounds.
pub open spec fn buy_ship_data_wf(v: BuyShipDataV) -> bool {
    agent_wf(v.agent)
        && ship_wf(v.ship)
        && shipyard_transaction_wf(v.transactions)
}

/// The JSON shape of a view.
pub open spec fn buy_ship_data_to_jv(v: BuyShipDataV) -> JsonV {
    JsonV::Obj(seq![
        ("agent"@, agent_to_jv(v.agent)),
        ("ship"@, ship_to_jv(v.ship)),
        ("transactions"@, shipyard_transaction_to_jv(v.transactions)),
    ])
}

/// Extract a view from a JSON value.
pub open spec fn buy_ship_data_of_jv(j: JsonV) -> Option<BuyShipDataV> {
    match j {
        JsonV::Obj(es) => buy_ship_data_of_obj(es),
        _ => None,
    }
}

/// Extract a view from an object's members.
pub open spec fn buy_ship_data_of_obj(es: Seq<(Seq<char>, JsonV)>) -> Option<BuyShipDataV> {
    match (
        (match obj_get(es, "agent"@) { Some(sj) => agent_of_jv(sj), None => None }),
        (match obj_get(es, "ship"@) { Some(sj) => ship_of_jv(sj), None => None }),
        (match obj_get(es, "transactions"@) { Some(sj) => shipyard_transaction_of_jv(sj), None => None }),
    ) {
        (Some(agent), Some(ship), Some(transactions)) => Some(BuyShipDataV { agent, ship, transactions }),
        _ => None,
    }
}

/// Writing a well-formed view and reading it back yields the view.
pub proof fn lemma_buy_ship_data_round_trip(v: BuyShipDataV)
    requires
        buy_ship_data_wf(v),
    ensures
        buy_ship_data_of_jv(buy_ship_data_to_jv(v)) == Some(v),
{
    reveal_strlit("agent");
    reveal_strlit("ship");
    reveal_strlit("transactions");
    lemma_agent_round_trip(v.agent);
    lemma_ship_round_trip(v.ship);
    lemma_shipyard_transaction_round_trip(v.transactions);
    let es = buy_ship_data_to_jv(v)->Obj_0;
    assert(es.len() == 3);
    assert(es[0].0 == "agent"@);
    assert(es[1].0 == "ship"@);
    assert(es[2].0 == "transactions"@);
    assert("ship"@.len() != "agent"@.len());
    assert("transactions"@.len() != "agent"@.len());
    assert("transactions"@.len() != "ship"@.len());
    lemma_obj_get_at(es, 0);
    lemma_obj_get_at(es, 1);
    lemma_obj_get_at(es, 2);
}

impl BuyShipData {
    /// Encode this value as a JSON object.
    pub fn to_json(&self) -> (r: Json)
        ensures
            jv(r) == buy_ship_data_to_jv(self.deep_view()),
    {
        let mut entries: Vec<(String, Json)> = Vec::new();
        entries.push((String::from_str("agent"), self.agent.to_json()));
        entries.push((String::from_str("ship"), self.ship.to_json()));
        entries.push((String::from_str("transactions"), self.transactions.to_json()));
        proof {
            lemma_entries_view(entries@);
            let ev = entries_view(entries@);
            let target = buy_ship_data_to_jv(self.deep_view())->Obj_0;
            assert(entries@.len() == 3);
            assert(target.len() == 3);
            assert(entries@[0].0@ == "agent"@);
            assert(jv(entries@[0].1) == target[0].1);
            assert(ev[0] == target[0]);
            assert(entries@[1].0@ == "ship"@);
            assert(jv(entries@[1].1) == target[1].1);
            assert(ev[1] == target[1]);
            assert(entries@[2].0@ == "transactions"@);
            assert(jv(entries@[2].1) == target[2].1);
            assert(ev[2] == target[2]);
            assert(ev =~= target);
        }
        Json::Obj(entries)
    }

    /// Decode a value; `None` exactly when the spec-level extraction
    /// fails, and every decoded value is well formed.
    pub fn from_json(j: &Json) -> (r: Option<BuyShipData>)
        ensures
            match r {
                Some(v) => buy_ship_data_of_jv(jv(*j)) == Some(v.deep_view()) && buy_ship_data_wf(v.deep_view()),
                None => buy_ship_data_of_jv(jv(*j)) is None,
            },
    {
        let entries = match j {
            Json::Obj(entries) => entries,
            _ => { return None; }
        };
        proof {
            assert(*j == Json::Obj(*entries));
        }
        let agent = match json_get(entries, "agent") {
            Some(sj) => match Agent::from_json(sj) {
                Some(v) => v,
                None => { return None; }
            },
            None => { return None; }
        };
        let ship = match json_get(entries, "ship") {
            Some(sj) => match Ship::from_json(sj) {
                Some(v) => v,
                None => { return None; }
            },
            None => { return None; }
        };
        let transactions = match json_get(entries, "transactions") {
            Some(sj) => match ShipyardTransaction::from_json(sj) {
                Some(v) => v,
                None => { return None; }
            },
            None => { return None; }
        };
        Some(BuyShipData { agent, ship, transactions })
    }
}

// ---------------------------------------------------------------------------
// Lookup helpers
// ---------------------------------------------------------------------------

/// The index of the first cached ship with this symbol.
pub open spec fn find_ship(ships: Seq<ShipV>, sym: Seq<char>) -> Option<int>
    decreases ships.len(),
{
    if ships.len() == 0 {
        None
    } else if ships[0].symbol == sym {
        Some(0)
    } else {
        match find_ship(ships.drop_first(), sym) {
            Some(i) => Some(i + 1),
            None => None,
        }
    }
}

/// The index of the first cached contract with this id.
pub open spec fn find_contract(contracts: Seq<ContractV>, id: Seq<char>) -> Option<int>
    decreases contracts.len(),
{
    if contracts.len() == 0 {
        None
    } else if contracts[0].id == id {
        Some(0)
    } else {
        match find_contract(contracts.drop_first(), id) {
            Some(i) => Some(i + 1),
            None => None,
        }
    }
}

/// What [`find_ship`] means: the first index whose symbol matches.
pub proof fn lemma_find_ship(ships: Seq<ShipV>, sym: Seq<char>)
    ensures
        match find_ship(ships, sym) {
            Some(i) => 0 <= i < ships.len() && ships[i].symbol == sym && (forall|k: int|
                0 <= k < i ==> (#[trigger] ships[k]).symbol != sym),
            None => forall|k: int| 0 <= k < ships.len() ==> (#[trigger] ships[k]).symbol != sym,
        },
    decreases ships.len(),
{
    if ships.len() > 0 && ships[0].symbol != sym {
        lemma_find_ship(ships.drop_first(), sym);
        assert forall|k: int| 1 <= k < ships.len() implies ships.drop_first()[k - 1] == ships[k]
        by {}
    }
}

/// What [`find_contract`] means: the first index whose id matches.
pub proof fn lemma_find_contract(contracts: Seq<ContractV>, id: Seq<char>)
    ensures
        match find_contract(contracts, id) {
            Some(i) => 0 <= i < contracts.len() && contracts[i].id == id && (forall|k: int|
                0 <= k < i ==> (#[trigger] contracts[k]).id != id),
            None => forall|k: int|
                0 <= k < contracts.len() ==> (#[trigger] contracts[k]).id != id,
        },
    decreases contracts.len(),
{
    if contracts.len() > 0 && contracts[0].id != id {
        lemma_find_contract(contracts.drop_first(), id);
        assert forall|k: int| 1 <= k < contracts.len() implies contracts.drop_first()[k - 1]
            == contracts[k] by {}
    }
}

fn find_ship_index(ships: &Vec<Ship>, sym: &str) -> (r: Option<usize>)
    ensures
        match r {
            Some(i) => find_ship(ships.deep_view(), sym@) == Some(i as int),
            None => find_ship(ships.deep_view(), sym@) is None,
        },
{
    let ghost sv = ships.deep_view();
    proof {
        lemma_find_ship(sv, sym@);
    }
    let n = ships.len();
    let mut i: usize = 0;
    while i < n
        invariant
            i <= n,
            n == ships@.len(),
            sv == ships.deep_view(),
            sv.len() == n,
            forall|k: int| 0 <= k < i ==> (#[trigger] sv[k]).symbol != sym@,
        decreases n - i,
    {
        if str_eq(ships[i].symbol.as_str(), sym) {
            proof {
                lemma_find_ship(sv, sym@);
                assert(sv[i as int].symbol == sym@);
                match find_ship(sv, sym@) {
                    None => {
                        assert(false);
                    }
                    Some(j) => {
                        if j < i as int {
                            assert((#[trigger] sv[j]).symbol != sym@);
                            assert(false);
                        } else if j > i as int {
                            assert(sv[i as int].symbol != sym@);
                            assert(false);
                        }
                    }
                }
            }
            return Some(i);
        }
        i += 1;
    }
    proof {
        match find_ship(sv, sym@) {
            None => {}
            Some(j) => {
                assert((#[trigger] sv[j]).symbol != sym@);
                assert(false);
            }
        }
    }
    None
}

fn find_contract_index(contracts: &Vec<Contract>, id: &str) -> (r: Option<usize>)
    ensures
        match r {
            Some(i) => find_contract(contracts.deep_view(), id@) == Some(i as int),
            None => find_contract(contracts.deep_view(), id@) is None,
        },
{
    let ghost cv = contracts.deep_view();
    proof {
        lemma_find_contract(cv, id@);
    }
    let n = contracts.len();
    let mut i: usize = 0;
    while i < n
        invariant
            i <= n,
            n == contracts@.len(),
            cv == contracts.deep_view(),
            cv.len() == n,
            forall|k: int| 0 <= k < i ==> (#[trigger] cv[k]).id != id@,
        decreases n - i,
    {
        if str_eq(contracts[i].id.as_str(), id) {
            proof {
                lemma_find_contract(cv, id@);
                assert(cv[i as int].id == id@);
                match find_contract(cv, id@) {
                    None => {
                        assert(false);
                    }
                    Some(j) => {
                        if j < i as int {
                            assert((#[trigger] cv[j]).id != id@);
                            assert(false);
                        } else if j > i as int {
                            assert(cv[i as int].id != id@);
                            assert(false);
                        }
                    }
                }
            }
            return Some(i);
        }
        i += 1;
    }
    proof {
        match find_contract(cv, id@) {
            None => {}
            Some(j) => {
                assert((#[trigger] cv[j]).id != id@);
                assert(false);
            }
        }
    }
    None
}

// ---------------------------------------------------------------------------
// Requests
// ---------------------------------------------------------------------------

/// The HTTP verb of a request the library asks its caller to perform.
#[derive(Debug, Clone, Copy, PartialEq, Eq, Structural)]
pub enum HttpMethod {
    Get,
    Post,
}

/// A fully determined request: what to send, where, and with which bearer
/// token. The caller performs it and hands the response body back.
#[derive(Debug)]
pub struct HttpRequest {
    pub method: HttpMethod,
    pub url: String,
    pub bearer: Option<String>,
    pub body: Option<Json>,
}

/// The outcome of preparing a contract acceptance.
#[derive(Debug)]
pub enum AcceptStep {
    /// The contract is already accepted: done, no call is made.
    AlreadyAccepted,
    /// The acceptance must be confirmed by the server.
    Call(HttpRequest),
}

/// The outcome of preparing a dock or orbit change.
#[derive(Debug)]
pub enum NavStep {
    /// The ship is already in the target state: its current navigation state,
    /// no call is made.
    Current(Nav),
    /// The transition must be confirmed by the server.
    Call(HttpRequest),
}

fn url2(a: &str, b: &str) -> (r: String)
    ensures
        r@ == a@ + b@,
{
    let mut s = String::from_str(a);
    s.append(b);
    s
}

fn url3(a: &str, b: &str, c: &str) -> (r: String)
    ensures
        r@ == a@ + b@ + c@,
{
    let mut s = String::from_str(a);
    s.append(b);
    s.append(c);
    s
}

fn url4(a: &str, b: &str, c: &str, d: &str) -> (r: String)
    ensures
        r@ == a@ + b@ + c@ + d@,
{
    let mut s = String::from_str(a);
    s.append(b);
    s.append(c);
    s.append(d);
    s
}

fn url5(a: &str, b: &str, c: &str, d: &str, e: &str) -> (r: String)
    ensures
        r@ == a@ + b@ + c@ + d@ + e@,
{
    let mut s = String::from_str(a);
    s.append(b);
    s.append(c);
    s.append(d);
    s.append(e);
    s
}

// ---------------------------------------------------------------------------
// The client
// ---------------------------------------------------------------------------

/// The faction tag sent at registration: the chosen faction's, or the
/// default.
pub open spec fn register_faction_tag(faction: Option<FactionSymbol>) -> Seq<char> {
    match faction {
        Some(f) => f.tag_spec(),
        None => "COSMIC"@,
    }
}

/// The cache after a confirmed contract acceptance: the contract accepted and
/// the acceptance payment applied, everything else untouched. Accepting an
/// already-accepted contract changes nothing.
pub open spec fn accept_apply(c: CachedInfoV, i: int) -> CachedInfoV {
    if c.contracts[i].accepted {
        c
    } else {
        CachedInfoV {
            agent: AgentV { credits: c.agent.credits + c.contracts[i].terms.payment.on_accepted, ..c.agent },
            contracts: c.contracts.update(i, ContractV { accepted: true, ..c.contracts[i] }),
            ..c
        }
    }
}

/// The acceptance payment applied to this contract stays within the credits
/// counter's machine bounds.
pub open spec fn accept_credit_fits(cv: Option<CachedInfoV>, id: Seq<char>) -> bool {
    match cv {
        Some(c) => match find_contract(c.contracts, id) {
            Some(i) => !c.contracts[i].accepted ==> i32::MIN as int <= c.agent.credits
                + c.contracts[i].terms.payment.on_accepted && c.agent.credits
                + c.contracts[i].terms.payment.on_accepted <= i32::MAX as int,
            None => true,
        },
        None => true,
    }
}

/// The client: a bearer token once registered or loaded, and the session
/// cache of server-confirmed state.
#[derive(Debug)]
pub struct SpaceTradersClient {
    token: Option<String>,
    cache: Option<CachedInfo>,
}

impl SpaceTradersClient {
    /// The bearer token, as a sequence of characters.
    pub closed spec fn token_view(&self) -> Option<Seq<char>> {
        match self.token {
            Some(t) => Some(t@),
            None => None,
        }
    }

    /// The cache, as its mathematical view.
    pub closed spec fn cache_view(&self) -> Option<CachedInfoV> {
        match self.cache {
            Some(c) => Some(c.deep_view()),
            None => None,
        }
    }

    /// The client invariant: a populated cache implies a token, and every
    /// cached value satisfies its bounds.
    pub closed spec fn inv(&self) -> bool {
        &&& self.cache is Some ==> self.token is Some
        &&& match self.cache {
            Some(c) => cached_info_wf(c.deep_view()),
            None => true,
        }
    }

    /// A client with nothing set; registration or a loaded save populates it.
    pub fn new() -> (r: Self)
        ensures
            r.token_view() is None,
            r.cache_view() is None,
            r.inv(),
    {
        SpaceTradersClient { token: None, cache: None }
    }

    /// Whether a bearer token is set.
    pub fn has_token(&self) -> (r: bool)
        ensures
            r == (self.token_view() is Some),
    {
        self.token.is_some()
    }

    /// A read of the cached agent; fails on an empty cache.
    pub fn agent(&self) -> (r: Result<&Agent, SpaceTradersError>)
        ensures
            match self.cache_view() {
                Some(c) => r matches Ok(a) && a.deep_view() == c.agent,
                None => r matches Err(SpaceTradersError::EmptyCache(None)),
            },
    {
        match &self.cache {
            Some(cache) => Ok(&cache.agent),
            None => Err(SpaceTradersError::EmptyCache(None)),
        }
    }

    /// A read of the cached contracts; fails on an empty cache.
    pub fn contracts(&self) -> (r: Result<&Vec<Contract>, SpaceTradersError>)
        ensures
            match self.cache_view() {
                Some(c) => r matches Ok(v) && v.deep_view() == c.contracts,
                None => r matches Err(SpaceTradersError::EmptyCache(None)),
            },
    {
        match &self.cache {
            Some(cache) => Ok(&cache.contracts),
            None => Err(SpaceTradersError::EmptyCache(None)),
        }
    }

    /// A read of the cached ships; fails on an empty cache.
    pub fn ships(&self) -> (r: Result<&Vec<Ship>, SpaceTradersError>)
        ensures
            match self.cache_view() {
                Some(c) => r matches Ok(v) && v.deep_view() == c.ships,
                None => r matches Err(SpaceTradersError::EmptyCache(None)),
            },
    {
        match &self.cache {
            Some(cache) => Ok(&cache.ships),
            None => Err(SpaceTradersError::EmptyCache(None)),
        }
    }

    /// The cached ship with this symbol; the error names the symbol that is
    /// missing, and an unpopulated cache is reported as such.
    pub fn get_ship(&self, ship_symbol: &Symbol) -> (r: Result<&Ship, SpaceTradersError>)
        ensures
            match self.cache_view() {
                None => r matches Err(SpaceTradersError::EmptyCache(None)),
                Some(c) => match find_ship(c.ships, ship_symbol@) {
                    Some(i) => r matches Ok(s) && s.deep_view() == c.ships[i],
                    None => r matches Err(SpaceTradersError::InvalidShipSymbol(m)) && m@
                        == "ShipNotFound: "@ + ship_symbol@,
                },
            },
    {
        match &self.cache {
            None => Err(SpaceTradersError::EmptyCache(None)),
            Some(cache) => match find_ship_index(&cache.ships, ship_symbol.as_str()) {
                Some(i) => {
                    proof {
                        lemma_find_ship(cache.ships.deep_view(), ship_symbol@);
                    }
                    Ok(&cache.ships[i])
                }
                None => Err(
                    SpaceTradersError::InvalidShipSymbol(
                        url2("ShipNotFound: ", ship_symbol.as_str()),
                    ),
                ),
            },
        }
    }
}

impl Default for SpaceTradersClient {
    /// Same as [`SpaceTradersClient::new`].
    fn default() -> (r: Self)
        ensures
            r.token_view() is None,
            r.cache_view() is None,
            r.inv(),
    {
        SpaceTradersClient::new()
    }
}

impl SpaceTradersClient {
    /// Prepare a registration: the callsign must be 3 to 14 characters long,
    /// checked before any call; the request carries the callsign and the
    /// chosen (or default) faction.
    pub fn register_callsign_begin(&self, callsign: &str, faction: Option<FactionSymbol>) -> (r:
        Result<HttpRequest, SpaceTradersError>)
        ensures
            3 <= callsign@.len() <= 14 ==> (r matches Ok(req) && req.method == HttpMethod::Post
                && req.url@ == "https://api.spacetraders.io/v2/register"@ && req.bearer is None
                && (req.body matches Some(b) && jv(b) == JsonV::Obj(
                seq![
                    ("symbol"@, JsonV::Str(callsign@)),
                    ("faction"@, JsonV::Str(register_faction_tag(faction))),
                ],
            ))),
            !(3 <= callsign@.len() <= 14) ==> r matches Err(
                SpaceTradersError::InvalidCallsignLength,
            ),
    {
        let clen = callsign.unicode_len();
        if clen < 3 || clen > 14 {
            return Err(SpaceTradersError::InvalidCallsignLength);
        }
        let mut entries: Vec<(String, Json)> = Vec::new();
        entries.push((String::from_str("symbol"), Json::Str(String::from_str(callsign))));
        let fac = match faction {
            Some(f) => String::from_str(f.as_str()),
            None => String::from_str("COSMIC"),
        };
        entries.push((String::from_str("faction"), Json::Str(fac)));
        proof {
            lemma_entries_view(entries@);
            let ev = entries_view(entries@);
            let target = seq![
                ("symbol"@, JsonV::Str(callsign@)),
                ("faction"@, JsonV::Str(register_faction_tag(faction))),
            ];
            assert(entries@.len() == 2);
            assert(entries@[0].0@ == "symbol"@ && jv(entries@[0].1) == JsonV::Str(callsign@));
            assert(entries@[1].0@ == "faction"@ && jv(entries@[1].1) == JsonV::Str(
                register_faction_tag(faction),
            ));
            assert(ev[0] == target[0]);
            assert(ev[1] == target[1]);
            assert(ev =~= target);
        }
        Ok(
            HttpRequest {
                method: HttpMethod::Post,
                url: String::from_str("https://api.spacetraders.io/v2/register"),
                bearer: None,
                body: Some(Json::Obj(entries)),
            },
        )
    }

    /// Apply a registration response: on the success envelope the token is
    /// stored and the cache replaced whole; on the error envelope the typed
    /// server error is returned and the client, its token included, is left
    /// exactly as it was.
    pub fn register_callsign_complete(&mut self, response: &Json) -> (r: Result<
        (),
        SpaceTradersError,
    >)
        requires
            old(self).inv(),
        ensures
            final(self).inv(),
            match classify_spec(jv(*response)) {
                Some(EnvelopeV::ApiError(e)) => (r matches Err(
                    SpaceTradersError::ResponseError(err),
                ) && err.deep_view() == e) && *final(self) == *old(self),
                Some(EnvelopeV::Paginated(_, _)) => r matches Err(
                    SpaceTradersError::ProtocolViolation,
                ) && *final(self) == *old(self),
                None => r matches Err(SpaceTradersError::ProtocolViolation) && *final(self) == *old(
                    self,
                ),
                Some(EnvelopeV::Single(d)) => match registration_data_of_jv(d) {
                    None => r matches Err(SpaceTradersError::JsonError(_)) && *final(self) == *old(
                        self,
                    ),
                    Some(reg) => r matches Ok(_) && final(self).token_view() == Some(reg.token)
                        && final(self).cache_view() == Some(
                        CachedInfoV {
                            agent: reg.agent,
                            contracts: seq![reg.contract],
                            faction: reg.faction,
                            ships: seq![reg.ship],
                        },
                    ),
                },
            },
    {
        let env = match classify_response(response) {
            Ok(env) => env,
            Err(e) => { return Err(e); }
        };
        let data = match env {
            Envelope::Single { data } => data,
            Envelope::Paginated { .. } => { return Err(SpaceTradersError::ProtocolViolation); }
            Envelope::ApiError { error } => {
                return Err(SpaceTradersError::ResponseError(error));
            }
        };
        let reg = match RegistrationData::from_json(&data) {
            Some(reg) => reg,
            None => {
                return Err(
                    SpaceTradersError::JsonError(
                        String::from_str("the registration payload did not decode"),
                    ),
                );
            }
        };
        let mut contracts: Vec<Contract> = Vec::new();
        contracts.push(reg.contract);
        let mut ships: Vec<Ship> = Vec::new();
        ships.push(reg.ship);
        proof {
            assert(contracts.deep_view() =~= seq![
                registration_data_of_jv(jv(data)).unwrap().contract,
            ]);
            assert(ships.deep_view() =~= seq![registration_data_of_jv(jv(data)).unwrap().ship]);
        }
        self.token = Some(String::from_str(reg.token.as_str()));
        self.cache = Some(
            CachedInfo { agent: reg.agent, contracts, faction: reg.faction, ships },
        );
        Ok(())
    }

    /// Prepare a contract acceptance. An unknown id and an empty cache fail
    /// before any call; a contract that is already accepted finishes here
    /// with no call at all.
    pub fn accept_contract_begin(&self, contract_id: &Id) -> (r: Result<
        AcceptStep,
        SpaceTradersError,
    >)
        ensures
            match self.cache_view() {
                None => r matches Err(SpaceTradersError::EmptyCache(None)),
                Some(c) => match find_contract(c.contracts, contract_id@) {
                    None => r matches Err(SpaceTradersError::InvalidContractId(s)) && s@
                        == contract_id@,
                    Some(i) => if c.contracts[i].accepted {
                        r matches Ok(AcceptStep::AlreadyAccepted)
                    } else {
                        match self.token_view() {
                            None => r matches Err(SpaceTradersError::TokenNotSet),
                            Some(t) => r matches Ok(AcceptStep::Call(req)) && req.method
                                == HttpMethod::Post && req.url@
                                == "https://api.spacetraders.io/v2/my/contracts/"@ + contract_id@
                                + "/accept"@ && (req.bearer matches Some(b) && b@ == t)
                                && req.body is None,
                        }
                    },
                },
            },
    {
        let cache = match &self.cache {
            Some(cache) => cache,
            None => { return Err(SpaceTradersError::EmptyCache(None)); }
        };
        let idx = match find_contract_index(&cache.contracts, contract_id.as_str()) {
            Some(i) => i,
            None => {
                return Err(
                    SpaceTradersError::InvalidContractId(String::from_str(contract_id.as_str())),
                );
            }
        };
        proof {
            lemma_find_contract(cache.contracts.deep_view(), contract_id@);
        }
        if cache.contracts[idx].accepted {
            return Ok(AcceptStep::AlreadyAccepted);
        }
        let token = match &self.token {
            Some(t) => t.clone(),
            None => { return Err(SpaceTradersError::TokenNotSet); }
        };
        Ok(
            AcceptStep::Call(
                HttpRequest {
                    method: HttpMethod::Post,
                    url: url3(
                        "https://api.spacetraders.io/v2/my/contracts/",
                        contract_id.as_str(),
                        "/accept",
                    ),
                    bearer: Some(token),
                    body: None,
                },
            ),
        )
    }

    /// Apply a contract-acceptance response. Only a confirmed acceptance of a
    /// contract that was not yet accepted mutates the cache: that contract
    /// turns accepted and the acceptance payment is credited, exactly once.
    pub fn accept_contract_complete(&mut self, contract_id: &Id, response: &Json) -> (r: Result<
        (),
        SpaceTradersError,
    >)
        requires
            old(self).inv(),
            accept_credit_fits(old(self).cache_view(), contract_id@),
        ensures
            final(self).inv(),
            final(self).token_view() == old(self).token_view(),
            match classify_spec(jv(*response)) {
                Some(EnvelopeV::ApiError(e)) => (r matches Err(
                    SpaceTradersError::ResponseError(err),
                ) && err.deep_view() == e) && *final(self) == *old(self),
                Some(EnvelopeV::Paginated(_, _)) => r matches Err(
                    SpaceTradersError::ProtocolViolation,
                ) && *final(self) == *old(self),
                None => r matches Err(SpaceTradersError::ProtocolViolation) && *final(self) == *old(
                    self,
                ),
                Some(EnvelopeV::Single(d)) => match accept_data_of_jv(d) {
                    None => r matches Err(SpaceTradersError::JsonError(_)) && *final(self) == *old(
                        self,
                    ),
                    Some(_) => match old(self).cache_view() {
                        None => r matches Err(SpaceTradersError::EmptyCache(None)) && *final(self)
                            == *old(self),
                        Some(c) => match find_contract(c.contracts, contract_id@) {
                            None => (r matches Err(SpaceTradersError::InvalidContractId(s)) && s@
                                == contract_id@) && *final(self) == *old(self),
                            Some(i) => r matches Ok(_) && final(self).cache_view() == Some(
                                accept_apply(c, i),
                            ),
                        },
                    },
                },
            },
    {
        let env = match classify_response(response) {
            Ok(env) => env,
            Err(e) => { return Err(e); }
        };
        let data = match env {
            Envelope::Single { data } => data,
            Envelope::Paginated { .. } => { return Err(SpaceTradersError::ProtocolViolation); }
            Envelope::ApiError { error } => {
                return Err(SpaceTradersError::ResponseError(error));
            }
        };
        match AcceptData::from_json(&data) {
            Some(_) => (),
            None => {
                return Err(
                    SpaceTradersError::JsonError(
                        String::from_str("the acceptance payload did not decode"),
                    ),
                );
            }
        };
        let mut cache = match self.cache.take() {
            Some(cache) => cache,
            None => { return Err(SpaceTradersError::EmptyCache(None)); }
        };
        let ghost cv = cache.deep_view();
        let idx = match find_contract_index(&cache.contracts, contract_id.as_str()) {
            Some(i) => i,
            None => {
                let id_text = String::from_str(contract_id.as_str());
                self.cache = Some(cache);
                proof {
                    assert(*self == *old(self));
                }
                return Err(SpaceTradersError::InvalidContractId(id_text));
            }
        };
        proof {
            lemma_find_contract(cv.contracts, contract_id@);
        }
        if cache.contracts[idx].accepted {
            self.cache = Some(cache);
            proof {
                assert(*self == *old(self));
                assert(accept_apply(cv, idx as int) == cv);
            }
            return Ok(());
        }
        let payment = cache.contracts[idx].terms.payment.on_accepted;
        cache.contracts[idx].accepted = true;
        cache.agent.credits = cache.agent.credits + payment;
        proof {
            assert(cache.contracts.deep_view() =~= cv.contracts.update(
                idx as int,
                ContractV { accepted: true, ..cv.contracts[idx as int] },
            ));
            assert(cache.deep_view() == accept_apply(cv, idx as int));
        }
        self.cache = Some(cache);
        Ok(())
    }

    /// Prepare a dock. A ship that is already docked finishes here: its
    /// current navigation state is returned and no call is made.
    pub fn dock_ship_begin(&self, ship_symbol: &Symbol) -> (r: Result<NavStep, SpaceTradersError>)
        ensures
            match self.cache_view() {
                None => r matches Err(SpaceTradersError::EmptyCache(None)),
                Some(c) => match find_ship(c.ships, ship_symbol@) {
                    None => r matches Err(SpaceTradersError::InvalidShipSymbol(m)) && m@
                        == "ShipNotFound: "@ + ship_symbol@,
                    Some(i) => if c.ships[i].nav.status == ShipStatus::Docked {
                        r matches Ok(NavStep::Current(nav)) && nav.deep_view() == c.ships[i].nav
                    } else {
                        match self.token_view() {
                            None => r matches Err(SpaceTradersError::TokenNotSet),
                            Some(t) => r matches Ok(NavStep::Call(req)) && req.method
                                == HttpMethod::Post && req.url@
                                == "https://api.spacetraders.io/v2/my/ships/"@ + ship_symbol@
                                + "/dock"@ && (req.bearer matches Some(b) && b@ == t)
                                && req.body is None,
                        }
                    },
                },
            },
    {
        self.nav_begin(ship_symbol, true)
    }

    /// Prepare an orbit change; a ship already in orbit finishes here with no
    /// call.
    pub fn orbit_ship_begin(&self, ship_symbol: &Symbol) -> (r: Result<NavStep, SpaceTradersError>)
        ensures
            match self.cache_view() {
                None => r matches Err(SpaceTradersError::EmptyCache(None)),
                Some(c) => match find_ship(c.ships, ship_symbol@) {
                    None => r matches Err(SpaceTradersError::InvalidShipSymbol(m)) && m@
                        == "ShipNotFound: "@ + ship_symbol@,
                    Some(i) => if c.ships[i].nav.status == ShipStatus::InOrbit {
                        r matches Ok(NavStep::Current(nav)) && nav.deep_view() == c.ships[i].nav
                    } else {
                        match self.token_view() {
                            None => r matches Err(SpaceTradersError::TokenNotSet),
                            Some(t) => r matches Ok(NavStep::Call(req)) && req.method
                                == HttpMethod::Post && req.url@
                                == "https://api.spacetraders.io/v2/my/ships/"@ + ship_symbol@
                                + "/orbit"@ && (req.bearer matches Some(b) && b@ == t)
                                && req.body is None,
                        }
                    },
                },
            },
    {
        self.nav_begin(ship_symbol, false)
    }

    fn nav_begin(&self, ship_symbol: &Symbol, dock: bool) -> (r: Result<
        NavStep,
        SpaceTradersError,
    >)
        ensures
            match self.cache_view() {
                None => r matches Err(SpaceTradersError::EmptyCache(None)),
                Some(c) => match find_ship(c.ships, ship_symbol@) {
                    None => r matches Err(SpaceTradersError::InvalidShipSymbol(m)) && m@
                        == "ShipNotFound: "@ + ship_symbol@,
                    Some(i) => if c.ships[i].nav.status == (if dock {
                        ShipStatus::Docked
                    } else {
                        ShipStatus::InOrbit
                    }) {
                        r matches Ok(NavStep::Current(nav)) && nav.deep_view() == c.ships[i].nav
                    } else {
                        match self.token_view() {
                            None => r matches Err(SpaceTradersError::TokenNotSet),
                            Some(t) => r matches Ok(NavStep::Call(req)) && req.method
                                == HttpMethod::Post && req.url@
                                == "https://api.spacetraders.io/v2/my/ships/"@ + ship_symbol@
                                + (if dock {
                                "/dock"@
                            } else {
                                "/orbit"@
                            }) && (req.bearer matches Some(b) && b@ == t) && req.body is None,
                        }
                    },
                },
            },
    {
        let cache = match &self.cache {
            Some(cache) => cache,
            None => { return Err(SpaceTradersError::EmptyCache(None)); }
        };
        let idx = match find_ship_index(&cache.ships, ship_symbol.as_str()) {
            Some(i) => i,
            None => {
                return Err(
                    SpaceTradersError::InvalidShipSymbol(
                        url2("ShipNotFound: ", ship_symbol.as_str()),
                    ),
                );
            }
        };
        proof {
            lemma_find_ship(cache.ships.deep_view(), ship_symbol@);
        }
        let target = if dock {
            ShipStatus::Docked
        } else {
            ShipStatus::InOrbit
        };
        if cache.ships[idx].nav.status == target {
            return Ok(NavStep::Current(cache.ships[idx].nav.duplicate()));
        }
        let token = match &self.token {
            Some(t) => t.clone(),
            None => { return Err(SpaceTradersError::TokenNotSet); }
        };
        let suffix = if dock {
            "/dock"
        } else {
            "/orbit"
        };
        Ok(
            NavStep::Call(
                HttpRequest {
                    method: HttpMethod::Post,
                    url: url3(
                        "https://api.spacetraders.io/v2/my/ships/",
                        ship_symbol.as_str(),
                        suffix,
                    ),
                    bearer: Some(token),
                    body: None,
                },
            ),
        )
    }

    /// Apply a dock response: the server's navigation state replaces the
    /// cached one and is returned.
    pub fn dock_ship_complete(&mut self, ship_symbol: &Symbol, response: &Json) -> (r: Result<
        Nav,
        SpaceTradersError,
    >)
        requires
            old(self).inv(),
        ensures
            final(self).inv(),
            final(self).token_view() == old(self).token_view(),
            nav_complete_post(*old(self), *final(self), ship_symbol@, jv(*response), r),
    {
        self.nav_complete(ship_symbol, response)
    }

    /// Apply an orbit response: the server's navigation state replaces the
    /// cached one and is returned.
    pub fn orbit_ship_complete(&mut self, ship_symbol: &Symbol, response: &Json) -> (r: Result<
        Nav,
        SpaceTradersError,
    >)
        requires
            old(self).inv(),
        ensures
            final(self).inv(),
            final(self).token_view() == old(self).token_view(),
            nav_complete_post(*old(self), *final(self), ship_symbol@, jv(*response), r),
    {
        self.nav_complete(ship_symbol, response)
    }

    fn nav_complete(&mut self, ship_symbol: &Symbol, response: &Json) -> (r: Result<
        Nav,
        SpaceTradersError,
    >)
        requires
            old(self).inv(),
        ensures
            final(self).inv(),
            final(self).token_view() == old(self).token_view(),
            nav_complete_post(*old(self), *final(self), ship_symbol@, jv(*response), r),
    {
        let env = match classify_response(response) {
            Ok(env) => env,
            Err(e) => { return Err(e); }
        };
        let data = match env {
            Envelope::Single { data } => data,
            Envelope::Paginated { .. } => { return Err(SpaceTradersError::ProtocolViolation); }
            Envelope::ApiError { error } => {
                return Err(SpaceTradersError::ResponseError(error));
            }
        };
        let nd = match NavData::from_json(&data) {
            Some(nd) => nd,
            None => {
                return Err(
                    SpaceTradersError::JsonError(
                        String::from_str("the navigation payload did not decode"),
                    ),
                );
            }
        };
        let mut cache = match self.cache.take() {
            Some(cache) => cache,
            None => { return Err(SpaceTradersError::EmptyCache(None)); }
        };
        let ghost cv = cache.deep_view();
        let idx = match find_ship_index(&cache.ships, ship_symbol.as_str()) {
            Some(i) => i,
            None => {
                let msg = url2("ShipNotFound: ", ship_symbol.as_str());
                self.cache = Some(cache);
                proof {
                    assert(*self == *old(self));
                }
                return Err(SpaceTradersError::InvalidShipSymbol(msg));
            }
        };
        proof {
            lemma_find_ship(cv.ships, ship_symbol@);
        }
        let NavData { nav } = nd;
        let out = nav.duplicate();
        cache.ships[idx].nav = nav;
        proof {
            assert(cache.deep_view().ships =~= cv.ships.update(
                idx as int,
                ShipV { nav: nav.deep_view(), ..cv.ships[idx as int] },
            ));
            assert(cache.deep_view() == (CachedInfoV {
                ships: cv.ships.update(
                    idx as int,
                    ShipV { nav: nav.deep_view(), ..cv.ships[idx as int] },
                ),
                ..cv
            }));
        }
        self.cache = Some(cache);
        Ok(out)
    }
}

/// What applying a navigation response means: on the success envelope the
/// named ship's navigation state is replaced by the server's and returned;
/// on every failure the client is untouched.
pub open spec fn nav_complete_post(
    pre: SpaceTradersClient,
    post: SpaceTradersClient,
    sym: Seq<char>,
    response: JsonV,
    r: Result<Nav, SpaceTradersError>,
) -> bool {
    match classify_spec(response) {
        Some(EnvelopeV::ApiError(e)) => (r matches Err(SpaceTradersError::ResponseError(err))
            && err.deep_view() == e) && post == pre,
        Some(EnvelopeV::Paginated(_, _)) => r matches Err(SpaceTradersError::ProtocolViolation)
            && post == pre,
        None => r matches Err(SpaceTradersError::ProtocolViolation) && post == pre,
        Some(EnvelopeV::Single(d)) => match nav_data_of_jv(d) {
            None => r matches Err(SpaceTradersError::JsonError(_)) && post == pre,
            Some(nd) => match pre.cache_view() {
                None => r matches Err(SpaceTradersError::EmptyCache(None)) && post == pre,
                Some(c) => match find_ship(c.ships, sym) {
                    None => (r matches Err(SpaceTradersError::InvalidShipSymbol(m)) && m@
                        == "ShipNotFound: "@ + sym) && post == pre,
                    Some(i) => r matches Ok(nav) && nav.deep_view() == nd.nav && post.cache_view()
                        == Some(
                        CachedInfoV {
                            ships: c.ships.update(i, ShipV { nav: nd.nav, ..c.ships[i] }),
                            ..c
                        },
                    ),
                },
            },
        },
    }
}

impl SpaceTradersClient {
    /// Prepare an extraction: the ship must exist; the survey, if one is
    /// given, becomes the request body.
    pub fn extract_resources_begin(&self, ship_symbol: &Symbol, survey: &Option<Survey>) -> (r:
        Result<HttpRequest, SpaceTradersError>)
        ensures
            match self.cache_view() {
                None => r matches Err(SpaceTradersError::EmptyCache(None)),
                Some(c) => match find_ship(c.ships, ship_symbol@) {
                    None => r matches Err(SpaceTradersError::InvalidShipSymbol(m)) && m@
                        == "ShipNotFound: "@ + ship_symbol@,
                    Some(i) => match self.token_view() {
                        None => r matches Err(SpaceTradersError::TokenNotSet),
                        Some(t) => r matches Ok(req) && req.method == HttpMethod::Post && req.url@
                            == "https://api.spacetraders.io/v2/my/ships/"@ + ship_symbol@
                            + "/extract"@ && (req.bearer matches Some(b) && b@ == t) && (match (
                            survey,
                            req.body,
                        ) {
                            (Some(s), Some(b)) => jv(b) == survey_to_jv(s.deep_view()),
                            (None, None) => true,
                            _ => false,
                        }),
                    },
                },
            },
    {
        let cache = match &self.cache {
            Some(cache) => cache,
            None => { return Err(SpaceTradersError::EmptyCache(None)); }
        };
        match find_ship_index(&cache.ships, ship_symbol.as_str()) {
            Some(_) => (),
            None => {
                return Err(
                    SpaceTradersError::InvalidShipSymbol(
                        url2("ShipNotFound: ", ship_symbol.as_str()),
                    ),
                );
            }
        };
        let token = match &self.token {
            Some(t) => t.clone(),
            None => { return Err(SpaceTradersError::TokenNotSet); }
        };
        let body = match survey {
            Some(s) => Some(s.to_json()),
            None => None,
        };
        Ok(
            HttpRequest {
                method: HttpMethod::Post,
                url: url3(
                    "https://api.spacetraders.io/v2/my/ships/",
                    ship_symbol.as_str(),
                    "/extract",
                ),
                bearer: Some(token),
                body,
            },
        )
    }

    /// Apply an extraction response: exactly the named ship's cargo is
    /// replaced by the server's; the cooldown and the extraction report are
    /// returned.
    pub fn extract_resources_complete(&mut self, ship_symbol: &Symbol, response: &Json) -> (r:
        Result<(Cooldown, Extraction), SpaceTradersError>)
        requires
            old(self).inv(),
        ensures
            final(self).inv(),
            final(self).token_view() == old(self).token_view(),
            match classify_spec(jv(*response)) {
                Some(EnvelopeV::ApiError(e)) => (r matches Err(
                    SpaceTradersError::ResponseError(err),
                ) && err.deep_view() == e) && *final(self) == *old(self),
                Some(EnvelopeV::Paginated(_, _)) => r matches Err(
                    SpaceTradersError::ProtocolViolation,
                ) && *final(self) == *old(self),
                None => r matches Err(SpaceTradersError::ProtocolViolation) && *final(self) == *old(
                    self,
                ),
                Some(EnvelopeV::Single(d)) => match extract_data_of_jv(d) {
                    None => r matches Err(SpaceTradersError::JsonError(_)) && *final(self) == *old(
                        self,
                    ),
                    Some(ed) => match old(self).cache_view() {
                        None => r matches Err(SpaceTradersError::EmptyCache(None)) && *final(self)
                            == *old(self),
                        Some(c) => match find_ship(c.ships, ship_symbol@) {
                            None => (r matches Err(SpaceTradersError::InvalidShipSymbol(m)) && m@
                                == "ShipNotFound: "@ + ship_symbol@) && *final(self) == *old(self),
                            Some(i) => (r matches Ok(out) && out.0.deep_view() == ed.cooldown
                                && out.1.deep_view() == ed.extraction) && final(self).cache_view()
                                == Some(
                                CachedInfoV {
                                    ships: c.ships.update(
                                        i,
                                        ShipV { cargo: ed.cargo, ..c.ships[i] },
                                    ),
                                    ..c
                                },
                            ),
                        },
                    },
                },
            },
    {
        let env = match classify_response(response) {
            Ok(env) => env,
            Err(e) => { return Err(e); }
        };
        let data = match env {
            Envelope::Single { data } => data,
            Envelope::Paginated { .. } => { return Err(SpaceTradersError::ProtocolViolation); }
            Envelope::ApiError { error } => {
                return Err(SpaceTradersError::ResponseError(error));
            }
        };
        let ed = match ExtractData::from_json(&data) {
            Some(ed) => ed,
            None => {
                return Err(
                    SpaceTradersError::JsonError(
                        String::from_str("the extraction payload did not decode"),
                    ),
                );
            }
        };
        let mut cache = match self.cache.take() {
            Some(cache) => cache,
            None => { return Err(SpaceTradersError::EmptyCache(None)); }
        };
        let ghost cv = cache.deep_view();
        let idx = match find_ship_index(&cache.ships, ship_symbol.as_str()) {
            Some(i) => i,
            None => {
                let msg = url2("ShipNotFound: ", ship_symbol.as_str());
                self.cache = Some(cache);
                proof {
                    assert(*self == *old(self));
                }
                return Err(SpaceTradersError::InvalidShipSymbol(msg));
            }
        };
        proof {
            lemma_find_ship(cv.ships, ship_symbol@);
        }
        let ExtractData { cooldown, extraction, cargo } = ed;
        cache.ships[idx].cargo = cargo;
        proof {
            assert(cache.deep_view().ships =~= cv.ships.update(
                idx as int,
                ShipV { cargo: cargo.deep_view(), ..cv.ships[idx as int] },
            ));
            assert(cache.deep_view() == (CachedInfoV {
                ships: cv.ships.update(
                    idx as int,
                    ShipV { cargo: cargo.deep_view(), ..cv.ships[idx as int] },
                ),
                ..cv
            }));
        }
        self.cache = Some(cache);
        Ok((cooldown, extraction))
    }

    /// Prepare a ship purchase; only a token is needed, the cache may be
    /// empty.
    pub fn buy_ship_begin(&self, ship_type: ShipType, waypoint_symbol: &Symbol) -> (r: Result<
        HttpRequest,
        SpaceTradersError,
    >)
        ensures
            match self.token_view() {
                None => r matches Err(SpaceTradersError::TokenNotSet),
                Some(t) => r matches Ok(req) && req.method == HttpMethod::Post && req.url@
                    == "https://api.spacetraders.io/v2/my/ships"@ && (req.bearer matches Some(b)
                    && b@ == t) && (req.body matches Some(b) && jv(b) == JsonV::Obj(
                    seq![
                        ("ship_type"@, JsonV::Str(ship_type.tag_spec())),
                        ("waypoint_symbol"@, JsonV::Str(waypoint_symbol@)),
                    ],
                )),
            },
    {
        let token = match &self.token {
            Some(t) => t.clone(),
            None => { return Err(SpaceTradersError::TokenNotSet); }
        };
        let mut entries: Vec<(String, Json)> = Vec::new();
        entries.push((String::from_str("ship_type"), Json::Str(String::from_str(ship_type.as_str()))));
        entries.push(
            (String::from_str("waypoint_symbol"), Json::Str(
                String::from_str(waypoint_symbol.as_str()),
            )),
        );
        proof {
            lemma_entries_view(entries@);
            let ev = entries_view(entries@);
            let target = seq![
                ("ship_type"@, JsonV::Str(ship_type.tag_spec())),
                ("waypoint_symbol"@, JsonV::Str(waypoint_symbol@)),
            ];
            assert(entries@.len() == 2);
            assert(entries@[0].0@ == "ship_type"@ && jv(entries@[0].1) == JsonV::Str(
                ship_type.tag_spec(),
            ));
            assert(entries@[1].0@ == "waypoint_symbol"@ && jv(entries@[1].1) == JsonV::Str(
                waypoint_symbol@,
            ));
            assert(ev[0] == target[0]);
            assert(ev[1] == target[1]);
            assert(ev =~= target);
        }
        Ok(
            HttpRequest {
                method: HttpMethod::Post,
                url: String::from_str("https://api.spacetraders.io/v2/my/ships"),
                bearer: Some(token),
                body: Some(Json::Obj(entries)),
            },
        )
    }

    /// Apply a ship-purchase response: the new ship is appended and the agent
    /// replaced by the server's. Without a cache the purchase has still
    /// happened server-side, so the transaction rides along in the error.
    pub fn buy_ship_complete(&mut self, response: &Json) -> (r: Result<
        ShipyardTransaction,
        SpaceTradersError,
    >)
        requires
            old(self).inv(),
        ensures
            final(self).inv(),
            final(self).token_view() == old(self).token_view(),
            match classify_spec(jv(*response)) {
                Some(EnvelopeV::ApiError(e)) => (r matches Err(
                    SpaceTradersError::ResponseError(err),
                ) && err.deep_view() == e) && *final(self) == *old(self),
                Some(EnvelopeV::Paginated(_, _)) => r matches Err(
                    SpaceTradersError::ProtocolViolation,
                ) && *final(self) == *old(self),
                None => r matches Err(SpaceTradersError::ProtocolViolation) && *final(self) == *old(
                    self,
                ),
                Some(EnvelopeV::Single(d)) => match buy_ship_data_of_jv(d) {
                    None => r matches Err(SpaceTradersError::JsonError(_)) && *final(self) == *old(
                        self,
                    ),
                    Some(bd) => match old(self).cache_view() {
                        None => (r matches Err(SpaceTradersError::EmptyCache(Some(m))) && m@ == ren(
                            shipyard_transaction_to_jv(bd.transactions),
                        )) && *final(self) == *old(self),
                        Some(c) => (r matches Ok(tx) && tx.deep_view() == bd.transactions)
                            && final(self).cache_view() == Some(
                            CachedInfoV { agent: bd.agent, ships: c.ships.push(bd.ship), ..c },
                        ),
                    },
                },
            },
    {
        let env = match classify_response(response) {
            Ok(env) => env,
            Err(e) => { return Err(e); }
        };
        let data = match env {
            Envelope::Single { data } => data,
            Envelope::Paginated { .. } => { return Err(SpaceTradersError::ProtocolViolation); }
            Envelope::ApiError { error } => {
                return Err(SpaceTradersError::ResponseError(error));
            }
        };
        let bd = match BuyShipData::from_json(&data) {
            Some(bd) => bd,
            None => {
                return Err(
                    SpaceTradersError::JsonError(
                        String::from_str("the purchase payload did not decode"),
                    ),
                );
            }
        };
        let BuyShipData { agent, ship, transactions } = bd;
        let mut cache = match self.cache.take() {
            Some(cache) => cache,
            None => {
                let rendered = render_json(&transactions.to_json());
                return Err(SpaceTradersError::EmptyCache(Some(rendered)));
            }
        };
        let ghost cv = cache.deep_view();
        cache.agent = agent;
        cache.ships.push(ship);
        proof {
            assert(cache.deep_view().ships =~= cv.ships.push(
                buy_ship_data_of_jv(jv(data)).unwrap().ship,
            ));
        }
        self.cache = Some(cache);
        Ok(transactions)
    }

    /// Prepare a waypoint query.
    pub fn view_waypoint_begin(&self, system_symbol: &Symbol, waypoint_symbol: &Symbol) -> (r:
        Result<HttpRequest, SpaceTradersError>)
        ensures
            match self.token_view() {
                None => r matches Err(SpaceTradersError::TokenNotSet),
                Some(t) => r matches Ok(req) && req.method == HttpMethod::Get && req.url@
                    == "https://api.spacetraders.io/v2/systems/"@ + system_symbol@ + "/waypoints/"@
                    + waypoint_symbol@ && (req.bearer matches Some(b) && b@ == t)
                    && req.body is None,
            },
    {
        let token = match &self.token {
            Some(t) => t.clone(),
            None => { return Err(SpaceTradersError::TokenNotSet); }
        };
        Ok(
            HttpRequest {
                method: HttpMethod::Get,
                url: url4(
                    "https://api.spacetraders.io/v2/systems/",
                    system_symbol.as_str(),
                    "/waypoints/",
                    waypoint_symbol.as_str(),
                ),
                bearer: Some(token),
                body: None,
            },
        )
    }

    /// Apply a waypoint response: the decoded waypoint; the cache is never
    /// touched by a read.
    pub fn view_waypoint_complete(&self, response: &Json) -> (r: Result<
        Waypoint,
        SpaceTradersError,
    >)
        ensures
            match classify_spec(jv(*response)) {
                Some(EnvelopeV::ApiError(e)) => r matches Err(SpaceTradersError::ResponseError(err))
                    && err.deep_view() == e,
                Some(EnvelopeV::Paginated(_, _)) => r matches Err(
                    SpaceTradersError::ProtocolViolation,
                ),
                None => r matches Err(SpaceTradersError::ProtocolViolation),
                Some(EnvelopeV::Single(d)) => match waypoint_of_jv(d) {
                    None => r matches Err(SpaceTradersError::JsonError(_)),
                    Some(w) => r matches Ok(wp) && wp.deep_view() == w,
                },
            },
    {
        let env = match classify_response(response) {
            Ok(env) => env,
            Err(e) => { return Err(e); }
        };
        let data = match env {
            Envelope::Single { data } => data,
            Envelope::Paginated { .. } => { return Err(SpaceTradersError::ProtocolViolation); }
            Envelope::ApiError { error } => {
                return Err(SpaceTradersError::ResponseError(error));
            }
        };
        match Waypoint::from_json(&data) {
            Some(wp) => Ok(wp),
            None => Err(
                SpaceTradersError::JsonError(
                    String::from_str("the waypoint payload did not decode"),
                ),
            ),
        }
    }

    /// Prepare a shipyard query.
    pub fn view_shipyard_begin(&self, system_symbol: &Symbol, waypoint_symbol: &Symbol) -> (r:
        Result<HttpRequest, SpaceTradersError>)
        ensures
            match self.token_view() {
                None => r matches Err(SpaceTradersError::TokenNotSet),
                Some(t) => r matches Ok(req) && req.method == HttpMethod::Get && req.url@
                    == "https://api.spacetraders.io/v2/systems/"@ + system_symbol@ + "/waypoints/"@
                    + waypoint_symbol@ + "/shipyard"@ && (req.bearer matches Some(b) && b@ == t)
                    && req.body is None,
            },
    {
        let token = match &self.token {
            Some(t) => t.clone(),
            None => { return Err(SpaceTradersError::TokenNotSet); }
        };
        Ok(
            HttpRequest {
                method: HttpMethod::Get,
                url: url5(
                    "https://api.spacetraders.io/v2/systems/",
                    system_symbol.as_str(),
                    "/waypoints/",
                    waypoint_symbol.as_str(),
                    "/shipyard",
                ),
                bearer: Some(token),
                body: None,
            },
        )
    }

    /// Apply a shipyard response: the decoded shipyard; reads never touch the
    /// cache.
    pub fn view_shipyard_complete(&self, response: &Json) -> (r: Result<
        Shipyard,
        SpaceTradersError,
    >)
        ensures
            match classify_spec(jv(*response)) {
                Some(EnvelopeV::ApiError(e)) => r matches Err(SpaceTradersError::ResponseError(err))
                    && err.deep_view() == e,
                Some(EnvelopeV::Paginated(_, _)) => r matches Err(
                    SpaceTradersError::ProtocolViolation,
                ),
                None => r matches Err(SpaceTradersError::ProtocolViolation),
                Some(EnvelopeV::Single(d)) => match shipyard_of_jv(d) {
                    None => r matches Err(SpaceTradersError::JsonError(_)),
                    Some(y) => r matches Ok(yard) && yard.deep_view() == y,
                },
            },
    {
        let env = match classify_response(response) {
            Ok(env) => env,
            Err(e) => { return Err(e); }
        };
        let data = match env {
            Envelope::Single { data } => data,
            Envelope::Paginated { .. } => { return Err(SpaceTradersError::ProtocolViolation); }
            Envelope::ApiError { error } => {
                return Err(SpaceTradersError::ResponseError(error));
            }
        };
        match Shipyard::from_json(&data) {
            Some(yard) => Ok(yard),
            None => Err(
                SpaceTradersError::JsonError(
                    String::from_str("the shipyard payload did not decode"),
                ),
            ),
        }
    }

    /// Prepare a system-wide waypoint listing.
    pub fn find_shipyards_begin(&self, system_symbol: &Symbol) -> (r: Result<
        HttpRequest,
        SpaceTradersError,
    >)
        ensures
            match self.token_view() {
                None => r matches Err(SpaceTradersError::TokenNotSet),
                Some(t) => r matches Ok(req) && req.method == HttpMethod::Get && req.url@
                    == "https://api.spacetraders.io/v2/systems/"@ + system_symbol@ + "/waypoints"@
                    && (req.bearer matches Some(b) && b@ == t) && req.body is None,
            },
    {
        let token = match &self.token {
            Some(t) => t.clone(),
            None => { return Err(SpaceTradersError::TokenNotSet); }
        };
        Ok(
            HttpRequest {
                method: HttpMethod::Get,
                url: url3(
                    "https://api.spacetraders.io/v2/systems/",
                    system_symbol.as_str(),
                    "/waypoints",
                ),
                bearer: Some(token),
                body: None,
            },
        )
    }

    /// Apply a waypoint listing: exactly the waypoints carrying the shipyard
    /// trait, in their listed order. The listing is paginated; a single
    /// envelope here is a protocol violation.
    pub fn find_shipyards_complete(&self, response: &Json) -> (r: Result<
        Vec<Waypoint>,
        SpaceTradersError,
    >)
        ensures
            match classify_spec(jv(*response)) {
                Some(EnvelopeV::ApiError(e)) => r matches Err(SpaceTradersError::ResponseError(err))
                    && err.deep_view() == e,
                Some(EnvelopeV::Single(_)) => r matches Err(SpaceTradersError::ProtocolViolation),
                None => r matches Err(SpaceTradersError::ProtocolViolation),
                Some(EnvelopeV::Paginated(items, _)) => match waypoint_seq_of_jv(items) {
                    None => r matches Err(SpaceTradersError::JsonError(_)),
                    Some(ws) => r matches Ok(v) && v.deep_view() == filter_shipyards(ws),
                },
            },
    {
        let env = match classify_response(response) {
            Ok(env) => env,
            Err(e) => { return Err(e); }
        };
        let data = match env {
            Envelope::Paginated { data, .. } => data,
            Envelope::Single { .. } => { return Err(SpaceTradersError::ProtocolViolation); }
            Envelope::ApiError { error } => {
                return Err(SpaceTradersError::ResponseError(error));
            }
        };
        proof {
            assert(jv_seq(data@).skip(0) =~= jv_seq(data@));
        }
        let ws = match Waypoint::vec_from_json(&data, 0) {
            Some(ws) => ws,
            None => {
                return Err(
                    SpaceTradersError::JsonError(
                        String::from_str("a waypoint in the listing did not decode"),
                    ),
                );
            }
        };
        Ok(filter_shipyards_vec(ws))
    }
}

/// Whether a waypoint carries the shipyard trait.
pub open spec fn has_shipyard_trait(w: WaypointV) -> bool {
    exists|i: int|
        0 <= i < w.traits.len() && (#[trigger] w.traits[i]).symbol == WaypointTraitSymbols::Shipyard
}

/// The waypoints carrying the shipyard trait, in order.
pub open spec fn filter_shipyards(ws: Seq<WaypointV>) -> Seq<WaypointV>
    decreases ws.len(),
{
    if ws.len() == 0 {
        Seq::empty()
    } else if has_shipyard_trait(ws[0]) {
        seq![ws[0]] + filter_shipyards(ws.drop_first())
    } else {
        filter_shipyards(ws.drop_first())
    }
}

fn waypoint_has_shipyard(w: &Waypoint) -> (r: bool)
    ensures
        r == has_shipyard_trait(w.deep_view()),
{
    let n = w.traits.len();
    let mut i: usize = 0;
    while i < n
        invariant
            i <= n,
            n == w.traits@.len(),
            forall|k: int| 0 <= k < i ==> (#[trigger] w.deep_view().traits[k]).symbol
                != WaypointTraitSymbols::Shipyard,
        decreases n - i,
    {
        if w.traits[i].symbol == WaypointTraitSymbols::Shipyard {
            proof {
                assert(w.deep_view().traits[i as int].symbol == WaypointTraitSymbols::Shipyard);
            }
            return true;
        }
        i += 1;
    }
    false
}

fn filter_shipyards_vec(ws: Vec<Waypoint>) -> (r: Vec<Waypoint>)
    ensures
        r.deep_view() == filter_shipyards(ws.deep_view()),
    decreases ws@.len(),
{
    let ghost wv = ws.deep_view();
    let mut ws = ws;
    if ws.len() == 0 {
        proof {
            assert(ws.deep_view() =~= Seq::<WaypointV>::empty());
        }
        ws
    } else {
        let hd = ws.remove(0);
        proof {
            assert(ws.deep_view() =~= wv.drop_first());
            assert(hd.deep_view() == wv[0]);
        }
        let mut rest = filter_shipyards_vec(ws);
        if waypoint_has_shipyard(&hd) {
            let ghost restv = rest.deep_view();
            rest.insert(0, hd);
            proof {
                assert(rest.deep_view() =~= seq![wv[0]] + restv);
            }
        }
        rest
    }
}

// ---------------------------------------------------------------------------
// The save codec
// ---------------------------------------------------------------------------

/// The position of the first newline.
pub open spec fn first_nl(s: Seq<char>) -> Option<int>
    decreases s.len(),
{
    if s.len() == 0 {
        None
    } else if s[0] == '\n' {
        Some(0)
    } else {
        match first_nl(s.drop_first()) {
            Some(i) => Some(i + 1),
            None => None,
        }
    }
}

/// What [`first_nl`] means: the first index holding a newline.
pub proof fn lemma_first_nl(s: Seq<char>)
    ensures
        match first_nl(s) {
            Some(i) => 0 <= i < s.len() && s[i] == '\n' && (forall|k: int|
                0 <= k < i ==> s[k] != '\n'),
            None => forall|k: int| 0 <= k < s.len() ==> s[k] != '\n',
        },
    decreases s.len(),
{
    if s.len() > 0 && s[0] != '\n' {
        lemma_first_nl(s.drop_first());
        assert forall|k: int| 1 <= k < s.len() implies s.drop_first()[k - 1] == s[k] by {}
    }
}

/// The two lines of a save: the token line, and the cache line (the second
/// line, ignoring anything after it).
pub open spec fn save_parts(s: Seq<char>) -> Option<(Seq<char>, Seq<char>)> {
    match first_nl(s) {
        None => None,
        Some(p) => {
            let rest = s.subrange(p + 1, s.len() as int);
            if rest.len() == 0 {
                None
            } else {
                let line2 = match first_nl(rest) {
                    Some(q) => rest.subrange(0, q),
                    None => rest,
                };
                Some((s.subrange(0, p), line2))
            }
        },
    }
}

/// What loading a save text yields, when it yields anything: the token and
/// the cache view.
pub open spec fn load_spec(s: Seq<char>) -> Option<(Seq<char>, CachedInfoV)> {
    match save_parts(s) {
        None => None,
        Some((tok, line2)) => match parse_json_spec(line2) {
            None => None,
            Some(j) => match cached_info_of_jv(j) {
                None => None,
                Some(c) => Some((tok, c)),
            },
        },
    }
}

/// The text written for a token and a cache: the token line, then the cache
/// as one line of JSON.
pub open spec fn save_text(token: Seq<char>, c: CachedInfoV) -> Seq<char> {
    token + seq!['\n'] + ren(cached_info_to_jv(c))
}

fn find_newline(chars: &Vec<char>, from: usize) -> (r: Option<usize>)
    requires
        from <= chars@.len(),
    ensures
        match r {
            Some(p) => from <= p < chars@.len() && first_nl(
                chars@.subrange(from as int, chars@.len() as int),
            ) == Some(p - from as int),
            None => first_nl(chars@.subrange(from as int, chars@.len() as int)) is None,
        },
{
    let n = chars.len();
    let mut i = from;
    while i < n
        invariant
            from <= i <= n,
            n == chars@.len(),
            first_nl(chars@.subrange(from as int, n as int)) == match first_nl(
                chars@.subrange(i as int, n as int),
            ) {
                Some(q) => Some(q + i - from),
                None => None::<int>,
            },
        decreases n - i,
    {
        let ghost pre = chars@.subrange(i as int, n as int);
        if chars[i] == '\n' {
            proof {
                assert(pre[0] == chars@[i as int]);
                assert(first_nl(pre) == Some(0int));
            }
            return Some(i);
        }
        proof {
            assert(pre[0] == chars@[i as int]);
            assert(pre.drop_first() =~= chars@.subrange(i as int + 1, n as int));
        }
        i += 1;
    }
    proof {
        assert(chars@.subrange(n as int, n as int).len() == 0);
    }
    None
}

impl SpaceTradersClient {
    /// The save text for this client: the token line, then the cache as one
    /// line of JSON. Fails when there is no token or no cache to persist.
    pub fn save_client(&self) -> (r: Result<String, SpaceTradersError>)
        ensures
            match (self.token_view(), self.cache_view()) {
                (None, _) => r matches Err(SpaceTradersError::TokenNotSet),
                (Some(_), None) => r matches Err(SpaceTradersError::EmptyCache(None)),
                (Some(t), Some(c)) => r matches Ok(s) && s@ == save_text(t, c),
            },
    {
        let token = match &self.token {
            Some(t) => t,
            None => { return Err(SpaceTradersError::TokenNotSet); }
        };
        let cache = match &self.cache {
            Some(c) => c,
            None => { return Err(SpaceTradersError::EmptyCache(None)); }
        };
        let body = render_json(&cache.to_json());
        let mut out = token.clone();
        out.append("\n");
        out.append(body.as_str());
        proof {
            reveal_strlit("\n");
            assert(out@ =~= save_text(self.token_view().unwrap(), self.cache_view().unwrap()));
        }
        Ok(out)
    }

    /// Load a client from save text: line one is the token, line two the
    /// cache. A missing line, undecodable JSON, and a cache of the wrong
    /// shape are told apart.
    pub fn load_saved(save: &str) -> (r: Result<SpaceTradersClient, SpaceTradersError>)
        ensures
            match r {
                Ok(client) => (match load_spec(save@) {
                    Some((tok, c)) => client.token_view() == Some(tok) && client.cache_view()
                        == Some(c),
                    None => false,
                }) && client.inv(),
                Err(SpaceTradersError::InvalidSave(_)) => save_parts(save@) is None,
                Err(SpaceTradersError::JsonError(_)) => save_parts(save@) is Some && load_spec(
                    save@,
                ) is None,
                Err(_) => false,
            },
    {
        let chars = str_to_chars(save);
        let ghost s = save@;
        let p = match find_newline(&chars, 0) {
            Some(p) => p,
            None => {
                proof {
                    assert(chars@.subrange(0, chars@.len() as int) =~= s);
                }
                return Err(
                    SpaceTradersError::InvalidSave(
                        String::from_str("the save text must hold a token line and a cache line"),
                    ),
                );
            }
        };
        proof {
            assert(chars@.subrange(0, chars@.len() as int) =~= s);
        }
        let n = chars.len();
        if p + 1 == n {
            proof {
                assert(s.subrange(p as int + 1, s.len() as int).len() == 0);
            }
            return Err(
                SpaceTradersError::InvalidSave(
                    String::from_str("the save text must hold a token line and a cache line"),
                ),
            );
        }
        let line2_end = match find_newline(&chars, p + 1) {
            Some(q) => q,
            None => n,
        };
        proof {
            let rest = s.subrange(p as int + 1, s.len() as int);
            assert(rest.len() > 0);
            if line2_end < n {
                assert(first_nl(rest) == Some(line2_end - (p as int + 1)));
                assert(rest.subrange(0, line2_end - (p as int + 1)) =~= s.subrange(
                    p as int + 1,
                    line2_end as int,
                ));
            } else {
                assert(first_nl(rest) is None);
                assert(rest =~= s.subrange(p as int + 1, line2_end as int));
            }
            assert(save_parts(s) == Some(
                (s.subrange(0, p as int), s.subrange(p as int + 1, line2_end as int)),
            ));
        }
        let token = chars_to_string_range(&chars, 0, p);
        let line2 = chars_to_string_range(&chars, p + 1, line2_end);
        let parsed = match parse_json(line2.as_str()) {
            Some(j) => j,
            None => {
                return Err(
                    SpaceTradersError::JsonError(
                        String::from_str("the cache line is not valid JSON"),
                    ),
                );
            }
        };
        let cache = match CachedInfo::from_json(&parsed) {
            Some(c) => c,
            None => {
                return Err(
                    SpaceTradersError::JsonError(
                        String::from_str("the cache line does not hold a session cache"),
                    ),
                );
            }
        };
        Ok(SpaceTradersClient { token: Some(token), cache: Some(cache) })
    }
}

/// First-match contract lookup sees only the ids: sequences with pointwise
/// equal ids resolve alike.
proof fn lemma_find_contract_same_ids(a: Seq<ContractV>, b: Seq<ContractV>, id: Seq<char>)
    requires
        a.len() == b.len(),
        forall|k: int| 0 <= k < a.len() ==> (#[trigger] a[k]).id == b[k].id,
    ensures
        find_contract(a, id) == find_contract(b, id),
    decreases a.len(),
{
    if a.len() > 0 {
        assert(a[0].id == b[0].id);
        assert forall|k: int| 0 <= k < a.drop_first().len() implies (#[trigger] a.drop_first()[k]).id
            == b.drop_first()[k].id by {
            assert(a.drop_first()[k] == a[k + 1]);
            assert(b.drop_first()[k] == b[k + 1]);
        }
        lemma_find_contract_same_ids(a.drop_first(), b.drop_first(), id);
    }
}

/// Accepting a contract is idempotent and pays exactly once: after a
/// confirmed acceptance the same id still resolves to the same contract,
/// which now reads accepted, so preparing the acceptance again finishes
/// locally without a call, applying a further confirmation changes nothing,
/// and the credits have moved by the acceptance payment exactly once.
pub proof fn lemma_accept_contract_idempotent(c: CachedInfoV, id: Seq<char>, i: int)
    requires
        find_contract(c.contracts, id) == Some(i),
    ensures
        ({
            let c2 = accept_apply(c, i);
            &&& find_contract(c2.contracts, id) == Some(i)
            &&& c2.contracts[i].accepted
            &&& accept_apply(c2, i) == c2
            &&& c2.agent.credits == if c.contracts[i].accepted {
                c.agent.credits
            } else {
                c.agent.credits + c.contracts[i].terms.payment.on_accepted
            }
        }),
{
    lemma_find_contract(c.contracts, id);
    let c2 = accept_apply(c, i);
    assert forall|k: int| 0 <= k < c.contracts.len() implies (#[trigger] c.contracts[k]).id
        == c2.contracts[k].id by {}
    lemma_find_contract_same_ids(c.contracts, c2.contracts, id);
}

/// The JSON shape of a well-formed cache is representable: every integer in
/// it fits.
pub proof fn lemma_cached_info_to_jv_wf(v: CachedInfoV)
    requires
        cached_info_wf(v),
    ensures
        jv_wf(cached_info_to_jv(v)),
{
    lemma_agent_to_jv_wf(v.agent);
    lemma_contract_seq_to_jv_wf(v.contracts);
    lemma_faction_to_jv_wf(v.faction);
    lemma_ship_seq_to_jv_wf(v.ships);
    let es = cached_info_to_jv(v)->Obj_0;
    assert forall|i: int| 0 <= i < es.len() implies jv_wf((#[trigger] es[i]).1) by {
        assert(jv_wf(es[0].1));
        assert(jv_wf(es[1].1));
        assert(jv_wf(es[2].1));
        assert(jv_wf(es[3].1));
    }
}

/// Saving a client and loading the text back restores it exactly: for every
/// well-formed cache and every token free of newlines, the loaded token and
/// cache equal the saved ones in all fields.
pub proof fn lemma_save_load_round_trip(token: Seq<char>, c: CachedInfoV)
    requires
        cached_info_wf(c),
        forall|i: int| 0 <= i < token.len() ==> token[i] != '\n',
    ensures
        load_spec(save_text(token, c)) == Some((token, c)),
{
    let body = ren(cached_info_to_jv(c));
    let s = save_text(token, c);
    lemma_ren_no_nl(cached_info_to_jv(c));
    lemma_cached_info_to_jv_wf(c);
    lemma_parse_render(cached_info_to_jv(c));
    lemma_cached_info_round_trip(c);
    lemma_first_nl(s);
    assert(s.len() == token.len() + 1 + body.len());
    assert(s[token.len() as int] == '\n');
    assert forall|k: int| 0 <= k < token.len() implies s[k] != '\n' by {
        assert(s[k] == token[k]);
    }
    match first_nl(s) {
        None => {
            assert(false);
        }
        Some(p) => {
            if p < token.len() {
                assert(s[p] != '\n');
                assert(false);
            } else if p > token.len() {
                assert(false);
            }
        }
    }
    let rest = s.subrange(token.len() as int + 1, s.len() as int);
    assert(rest =~= body);
    assert(body.len() > 0);
    lemma_first_nl(rest);
    match first_nl(rest) {
        Some(q) => {
            assert(rest[q] == '\n');
            assert(body[q] != '\n');
            assert(false);
        }
        None => {}
    }
    assert(s.subrange(0, token.len() as int) =~= token);
}

} // verus!
