//! Pagination data carried by paginated response envelopes.

use vstd::prelude::*;

use crate::codec::{
    get_i32, get_int_min, get_int_range, bounded_json, i32_json, json_get_bounded, json_get_i32,
    json_get_lower, lower_json, lemma_obj_get_at,
};
use crate::conditional_types::{BoundedInt, LowerBoundInt};
use crate::json::{entries_view, jv, jv_wf, lemma_entries_view, obj_get, Json, JsonV};

verus! {

/// Pagination data of a paginated response.
#[derive(Debug)]
pub struct Meta {
    pub total: i32,
    pub limit: BoundedInt<1, 20>,
    pub page: LowerBoundInt<1>,
}

/// The mathematical view of [`Meta`].
pub struct MetaV {
    pub total: int,
    pub limit: int,
    pub page: int,
}

impl DeepView for Meta {
    type V = MetaV;

    open spec fn deep_view(&self) -> MetaV {
        MetaV {
            total: self.total as int,
            limit: self.limit.deep_view(),
            page: self.page.deep_view(),
        }
    }
}

/// Every constrained leaf of the view is within its bounds.
pub open spec fn meta_wf(v: MetaV) -> bool {
    i32::MIN as int <= v.total && v.total <= i32::MAX as int
        && 1 <= v.limit && v.limit <= 20
        && 1 <= v.page && v.page <= i64::MAX as int
}

/// The JSON shape of a view.
pub open spec fn meta_to_jv(v: MetaV) -> JsonV {
    JsonV::Obj(seq![
        ("total"@, JsonV::Int(v.total)),
        ("limit"@, JsonV::Int(v.limit)),
        ("page"@, JsonV::Int(v.page)),
    ])
}

/// Extract a view from a JSON value.
pub open spec fn meta_of_jv(j: JsonV) -> Option<MetaV> {
    match j {
        JsonV::Obj(es) => meta_of_obj(es),
        _ => None,
    }
}

/// Extract a view from an object's members.
pub open spec fn meta_of_obj(es: Seq<(Seq<char>, JsonV)>) -> Option<MetaV> {
    match (
        get_i32(es, "total"@),
        get_int_range(es, "limit"@, 1, 20),
        get_int_min(es, "page"@, 1),
    ) {
        (Some(total), Some(limit), Some(page)) => Some(MetaV { total, limit, page }),
        _ => None,
    }
}

/// Writing a well-formed view and reading it back yields the view.
pub proof fn lemma_meta_round_trip(v: MetaV)
    requires
        meta_wf(v),
    ensures
        meta_of_jv(meta_to_jv(v)) == Some(v),
{
    reveal_strlit("total");
    reveal_strlit("limit");
    reveal_strlit("page");
    let es = meta_to_jv(v)->Obj_0;
    assert(es.len() == 3);
    assert(es[0].0 == "total"@);
    assert(es[1].0 == "limit"@);
    assert(es[2].0 == "page"@);
    assert("limit"@[0] != 't');
    assert("total"@[0] == 't');
    lemma_obj_get_at(es, 0);
    lemma_obj_get_at(es, 1);
    lemma_obj_get_at(es, 2);
}

/// The JSON shape of a well-formed view is representable: every integer
/// in it fits.
pub proof fn lemma_meta_to_jv_wf(v: MetaV)
    requires
        meta_wf(v),
    ensures
        jv_wf(meta_to_jv(v)),
{
    let es = meta_to_jv(v)->Obj_0;
    assert forall|i: int| 0 <= i < es.len() implies jv_wf((#[trigger] es[i]).1) by {
        assert(jv_wf(es[0].1));
        assert(jv_wf(es[1].1));
        assert(jv_wf(es[2].1));
    }
}

impl Meta {
    /// Encode this value as a JSON object.
    pub fn to_json(&self) -> (r: Json)
        ensures
            jv(r) == meta_to_jv(self.deep_view()),
    {
        let mut entries: Vec<(String, Json)> = Vec::new();
        entries.push((String::from_str("total"), i32_json(self.total)));
        entries.push((String::from_str("limit"), bounded_json(&self.limit)));
        entries.push((String::from_str("page"), lower_json(&self.page)));
        proof {
            lemma_entries_view(entries@);
            let ev = entries_view(entries@);
            let target = meta_to_jv(self.deep_view())->Obj_0;
            assert(entries@.len() == 3);
            assert(target.len() == 3);
            assert(entries@[0].0@ == "total"@);
            assert(jv(entries@[0].1) == target[0].1);
            assert(ev[0] == target[0]);
            assert(entries@[1].0@ == "limit"@);
            assert(jv(entries@[1].1) == target[1].1);
            assert(ev[1] == target[1]);
            assert(entries@[2].0@ == "page"@);
            assert(jv(entries@[2].1) == target[2].1);
            assert(ev[2] == target[2]);
            assert(ev =~= target);
        }
        Json::Obj(entries)
    }

    /// Decode a value; `None` exactly when the spec-level extraction
    /// fails, and every decoded value is well formed.
    pub fn from_json(j: &Json) -> (r: Option<Meta>)
        ensures
            match r {
                Some(v) => meta_of_jv(jv(*j)) == Some(v.deep_view()) && meta_wf(v.deep_view()),
                None => meta_of_jv(jv(*j)) is None,
            },
    {
        let entries = match j {
            Json::Obj(entries) => entries,
            _ => { return None; }
        };
        proof {
            assert(*j == Json::Obj(*entries));
        }
        let total = match json_get_i32(entries, "total") { Some(v) => v, None => { return None; } };
        let limit = match json_get_bounded::<1, 20>(entries, "limit") { Some(v) => v, None => { return None; } };
        let page = match json_get_lower::<1>(entries, "page") { Some(v) => v, None => { return None; } };
        Some(Meta { total, limit, page })
    }
}

} // verus!
