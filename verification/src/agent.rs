//! The agent record: the player-controlled account.

use vstd::prelude::*;

use crate::codec::{get_i32, get_nes, i32_json, json_get_i32, json_get_nes, lemma_obj_get_at, nes_json};
use crate::conditional_types::NonEmptyString;
use crate::json::{entries_view, jv, jv_wf, lemma_entries_view, obj_get, Json, JsonV};

verus! {

/// The player-controlled account: callsign, headquarters and credits.
#[derive(Debug)]
pub struct Agent {
    pub account_id: NonEmptyString,
    pub symbol: NonEmptyString,
    pub headquarters: NonEmptyString,
    pub credits: i32,
}

/// The mathematical view of [`Agent`].
pub struct AgentV {
    pub account_id: Seq<char>,
    pub symbol: Seq<char>,
    pub headquarters: Seq<char>,
    pub credits: int,
}

impl DeepView for Agent {
    type V = AgentV;

    open spec fn deep_view(&self) -> AgentV {
        AgentV {
            account_id: self.account_id.deep_view(),
            symbol: self.symbol.deep_view(),
            headquarters: self.headquarters.deep_view(),
            credits: self.credits as int,
        }
    }
}

/// Every constrained leaf of the view is within its bounds.
pub open spec fn agent_wf(v: AgentV) -> bool {
    v.account_id.len() > 0
        && v.symbol.len() > 0
        && v.headquarters.len() > 0
        && i32::MIN as int <= v.credits && v.credits <= i32::MAX as int
}

/// The JSON shape of a view.
pub open spec fn agent_to_jv(v: AgentV) -> JsonV {
    JsonV::Obj(seq![
        ("accountId"@, JsonV::Str(v.account_id)),
        ("symbol"@, JsonV::Str(v.symbol)),
        ("headquarters"@, JsonV::Str(v.headquarters)),
        ("credits"@, JsonV::Int(v.credits)),
    ])
}

/// Extract a view from a JSON value.
pub open spec fn agent_of_jv(j: JsonV) -> Option<AgentV> {
    match j {
        JsonV::Obj(es) => agent_of_obj(es),
        _ => None,
    }
}

/// Extract a view from an object's members.
pub open spec fn agent_of_obj(es: Seq<(Seq<char>, JsonV)>) -> Option<AgentV> {
    match (
        get_nes(es, "accountId"@),
        get_nes(es, "symbol"@),
        get_nes(es, "headquarters"@),
        get_i32(es, "credits"@),
    ) {
        (Some(account_id), Some(symbol), Some(headquarters), Some(credits)) => Some(AgentV { account_id, symbol, headquarters, credits }),
        _ => None,
    }
}

/// Writing a well-formed view and reading it back yields the view.
pub proof fn lemma_agent_round_trip(v: AgentV)
    requires
        agent_wf(v),
    ensures
        agent_of_jv(agent_to_jv(v)) == Some(v),
{
    reveal_strlit("accountId");
    reveal_strlit("symbol");
    reveal_strlit("headquarters");
    reveal_strlit("credits");
    let es = agent_to_jv(v)->Obj_0;
    assert(es.len() == 4);
    assert(es[0].0 == "accountId"@);
    assert(es[1].0 == "symbol"@);
    assert(es[2].0 == "headquarters"@);
    assert(es[3].0 == "credits"@);
    lemma_obj_get_at(es, 0);
    lemma_obj_get_at(es, 1);
    lemma_obj_get_at(es, 2);
    lemma_obj_get_at(es, 3);
}

/// The JSON shape of a well-formed view is representable: every integer
/// in it fits.
pub proof fn lemma_agent_to_jv_wf(v: AgentV)
    requires
        agent_wf(v),
    ensures
        jv_wf(agent_to_jv(v)),
{
    let es = agent_to_jv(v)->Obj_0;
    assert forall|i: int| 0 <= i < es.len() implies jv_wf((#[trigger] es[i]).1) by {
        assert(jv_wf(es[0].1));
        assert(jv_wf(es[1].1));
        assert(jv_wf(es[2].1));
        assert(jv_wf(es[3].1));
    }
}

impl Agent {
    /// Encode this value as a JSON object.
    pub fn to_json(&self) -> (r: Json)
        ensures
            jv(r) == agent_to_jv(self.deep_view()),
    {
        let mut entries: Vec<(String, Json)> = Vec::new();
        entries.push((String::from_str("accountId"), nes_json(&self.account_id)));
        entries.push((String::from_str("symbol"), nes_json(&self.symbol)));
        entries.push((String::from_str("headquarters"), nes_json(&self.headquarters)));
        entries.push((String::from_str("credits"), i32_json(self.credits)));
        proof {
            lemma_entries_view(entries@);
            let ev = entries_view(entries@);
            let target = agent_to_jv(self.deep_view())->Obj_0;
            assert(entries@.len() == 4);
            assert(target.len() == 4);
            assert(entries@[0].0@ == "accountId"@);
            assert(jv(entries@[0].1) == target[0].1);
            assert(ev[0] == target[0]);
            assert(entries@[1].0@ == "symbol"@);
            assert(jv(entries@[1].1) == target[1].1);
            assert(ev[1] == target[1]);
            assert(entries@[2].0@ == "headquarters"@);
            assert(jv(entries@[2].1) == target[2].1);
            assert(ev[2] == target[2]);
            assert(entries@[3].0@ == "credits"@);
            assert(jv(entries@[3].1) == target[3].1);
            assert(ev[3] == target[3]);
            assert(ev =~= target);
        }
        Json::Obj(entries)
    }

    /// Decode a value; `None` exactly when the spec-level extraction
    /// fails, and every decoded value is well formed.
    pub fn from_json(j: &Json) -> (r: Option<Agent>)
        ensures
            match r {
                Some(v) => agent_of_jv(jv(*j)) == Some(v.deep_view()) && agent_wf(v.deep_view()),
                None => agent_of_jv(jv(*j)) is None,
            },
    {
        let entries = match j {
            Json::Obj(entries) => entries,
            _ => { return None; }
        };
        proof {
            assert(*j == Json::Obj(*entries));
        }
        let account_id = match json_get_nes(entries, "accountId") { Some(v) => v, None => { return None; } };
        let symbol = match json_get_nes(entries, "symbol") { Some(v) => v, None => { return None; } };
        let headquarters = match json_get_nes(entries, "headquarters") { Some(v) => v, None => { return None; } };
        let credits = match json_get_i32(entries, "credits") { Some(v) => v, None => { return None; } };
        Some(Agent { account_id, symbol, headquarters, credits })
    }
}

} // verus!
