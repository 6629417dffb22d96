//! Shared pieces of the record codecs: reading one typed field out of a JSON
//! object (specified against [`obj_get`]) and turning leaf values back into
//! JSON.

use vstd::prelude::*;

use crate::conditional_types::{BoundedInt, LowerBoundInt, NonEmptyString, UpperBoundInt};
use crate::json::{
    entries_view, json_obj_get, jv, lemma_entries_view, lemma_obj_get_skip, obj_get, Json, JsonV,
};

verus! {

/// A string field.
pub open spec fn get_str(es: Seq<(Seq<char>, JsonV)>, k: Seq<char>) -> Option<Seq<char>> {
    match obj_get(es, k) {
        Some(JsonV::Str(s)) => Some(s),
        _ => None,
    }
}

/// A non-empty string field.
pub open spec fn get_nes(es: Seq<(Seq<char>, JsonV)>, k: Seq<char>) -> Option<Seq<char>> {
    match get_str(es, k) {
        Some(s) => if s.len() > 0 {
            Some(s)
        } else {
            None
        },
        None => None,
    }
}

/// A boolean field.
pub open spec fn get_bool(es: Seq<(Seq<char>, JsonV)>, k: Seq<char>) -> Option<bool> {
    match obj_get(es, k) {
        Some(JsonV::Bool(b)) => Some(b),
        _ => None,
    }
}

/// A 32-bit integer field.
pub open spec fn get_i32(es: Seq<(Seq<char>, JsonV)>, k: Seq<char>) -> Option<int> {
    match obj_get(es, k) {
        Some(JsonV::Int(n)) => if i32::MIN as int <= n && n <= i32::MAX as int {
            Some(n)
        } else {
            None
        },
        _ => None,
    }
}

/// An integer field with a lower bound.
pub open spec fn get_int_min(es: Seq<(Seq<char>, JsonV)>, k: Seq<char>, min: int) -> Option<int> {
    match obj_get(es, k) {
        Some(JsonV::Int(n)) => if min <= n && n <= i64::MAX as int {
            Some(n)
        } else {
            None
        },
        _ => None,
    }
}

/// An integer field that must lie in `[min, max]`.
pub open spec fn get_int_range(es: Seq<(Seq<char>, JsonV)>, k: Seq<char>, min: int, max: int) -> Option<
    int,
> {
    match obj_get(es, k) {
        Some(JsonV::Int(n)) => if min <= n && n <= max {
            Some(n)
        } else {
            None
        },
        _ => None,
    }
}

/// An optional 32-bit integer field: a missing key and an explicit null both
/// mean "absent".
pub open spec fn get_opt_i32(es: Seq<(Seq<char>, JsonV)>, k: Seq<char>) -> Option<Option<int>> {
    match obj_get(es, k) {
        None => Some(None),
        Some(JsonV::Null) => Some(None),
        Some(JsonV::Int(n)) => if i32::MIN as int <= n && n <= i32::MAX as int {
            Some(Some(n))
        } else {
            None
        },
        Some(_) => None,
    }
}

/// An optional non-empty string field.
pub open spec fn get_opt_nes(es: Seq<(Seq<char>, JsonV)>, k: Seq<char>) -> Option<
    Option<Seq<char>>,
> {
    match obj_get(es, k) {
        None => Some(None),
        Some(JsonV::Null) => Some(None),
        Some(JsonV::Str(s)) => if s.len() > 0 {
            Some(Some(s))
        } else {
            None
        },
        Some(_) => None,
    }
}

/// An optional lower-bounded integer field.
pub open spec fn get_opt_int_min(es: Seq<(Seq<char>, JsonV)>, k: Seq<char>, min: int) -> Option<
    Option<int>,
> {
    match obj_get(es, k) {
        None => Some(None),
        Some(JsonV::Null) => Some(None),
        Some(JsonV::Int(n)) => if min <= n && n <= i64::MAX as int {
            Some(Some(n))
        } else {
            None
        },
        Some(_) => None,
    }
}

/// Look a raw field up.
pub fn json_get<'a>(entries: &'a Vec<(String, Json)>, key: &str) -> (r: Option<&'a Json>)
    ensures
        match r {
            Some(v) => obj_get(entries_view(entries@), key@) == Some(jv(*v)),
            None => obj_get(entries_view(entries@), key@) is None,
        },
{
    json_obj_get(entries, key)
}

/// Read a string field.
pub fn json_get_str<'a>(entries: &'a Vec<(String, Json)>, key: &str) -> (r: Option<&'a String>)
    ensures
        match r {
            Some(s) => get_str(entries_view(entries@), key@) == Some(s@),
            None => get_str(entries_view(entries@), key@) is None,
        },
{
    match json_obj_get(entries, key) {
        Some(v) => match v {
            Json::Str(s) => Some(s),
            _ => None,
        },
        None => None,
    }
}

/// Read a non-empty string field.
pub fn json_get_nes(entries: &Vec<(String, Json)>, key: &str) -> (r: Option<NonEmptyString>)
    ensures
        match r {
            Some(v) => get_nes(entries_view(entries@), key@) == Some(v@),
            None => get_nes(entries_view(entries@), key@) is None,
        },
{
    match json_get_str(entries, key) {
        Some(s) => match NonEmptyString::new(s.as_str()) {
            Ok(v) => Some(v),
            Err(_) => None,
        },
        None => None,
    }
}

/// Read a boolean field.
pub fn json_get_bool(entries: &Vec<(String, Json)>, key: &str) -> (r: Option<bool>)
    ensures
        match r {
            Some(b) => get_bool(entries_view(entries@), key@) == Some(b),
            None => get_bool(entries_view(entries@), key@) is None,
        },
{
    match json_obj_get(entries, key) {
        Some(v) => match v {
            Json::Bool(b) => Some(*b),
            _ => None,
        },
        None => None,
    }
}

/// Read a 32-bit integer field.
pub fn json_get_i32(entries: &Vec<(String, Json)>, key: &str) -> (r: Option<i32>)
    ensures
        match r {
            Some(n) => get_i32(entries_view(entries@), key@) == Some(n as int),
            None => get_i32(entries_view(entries@), key@) is None,
        },
{
    match json_obj_get(entries, key) {
        Some(v) => match v {
            Json::Int(n) => if *n >= i32::MIN as i64 && *n <= i32::MAX as i64 {
                Some(*n as i32)
            } else {
                None
            },
            _ => None,
        },
        None => None,
    }
}

/// Read a lower-bounded integer field.
pub fn json_get_lower<const MIN: u64>(entries: &Vec<(String, Json)>, key: &str) -> (r: Option<
    LowerBoundInt<MIN>,
>)
    ensures
        match r {
            Some(v) => get_int_min(entries_view(entries@), key@, MIN as int) == Some(v@),
            None => get_int_min(entries_view(entries@), key@, MIN as int) is None,
        },
{
    match json_obj_get(entries, key) {
        Some(v) => match v {
            Json::Int(n) => match LowerBoundInt::<MIN>::new(*n) {
                Ok(b) => Some(b),
                Err(_) => None,
            },
            _ => None,
        },
        None => None,
    }
}

/// Read an integer field bounded on both sides.
pub fn json_get_bounded<const MIN: u64, const MAX: u64>(
    entries: &Vec<(String, Json)>,
    key: &str,
) -> (r: Option<BoundedInt<MIN, MAX>>)
    ensures
        match r {
            Some(v) => get_int_range(entries_view(entries@), key@, MIN as int, MAX as int) == Some(
                v@,
            ),
            None => get_int_range(entries_view(entries@), key@, MIN as int, MAX as int) is None,
        },
{
    match json_obj_get(entries, key) {
        Some(v) => match v {
            Json::Int(n) => match BoundedInt::<MIN, MAX>::new(*n) {
                Ok(b) => Some(b),
                Err(_) => None,
            },
            _ => None,
        },
        None => None,
    }
}

/// Read an optional 32-bit integer field.
pub fn json_get_opt_i32(entries: &Vec<(String, Json)>, key: &str) -> (r: Option<Option<i32>>)
    ensures
        match r {
            Some(Some(n)) => get_opt_i32(entries_view(entries@), key@) == Some(Some(n as int)),
            Some(None) => get_opt_i32(entries_view(entries@), key@) == Some(None::<int>),
            None => get_opt_i32(entries_view(entries@), key@) is None,
        },
{
    match json_obj_get(entries, key) {
        None => Some(None),
        Some(v) => match v {
            Json::Null => Some(None),
            Json::Int(n) => if *n >= i32::MIN as i64 && *n <= i32::MAX as i64 {
                Some(Some(*n as i32))
            } else {
                None
            },
            _ => None,
        },
    }
}

/// Read an optional non-empty string field.
pub fn json_get_opt_nes(entries: &Vec<(String, Json)>, key: &str) -> (r: Option<
    Option<NonEmptyString>,
>)
    ensures
        match r {
            Some(Some(v)) => get_opt_nes(entries_view(entries@), key@) == Some(Some(v@)),
            Some(None) => get_opt_nes(entries_view(entries@), key@) == Some(None::<Seq<char>>),
            None => get_opt_nes(entries_view(entries@), key@) is None,
        },
{
    match json_obj_get(entries, key) {
        None => Some(None),
        Some(v) => match v {
            Json::Null => Some(None),
            Json::Str(s) => match NonEmptyString::new(s.as_str()) {
                Ok(n) => Some(Some(n)),
                Err(_) => None,
            },
            _ => None,
        },
    }
}

/// Read an optional lower-bounded integer field.
pub fn json_get_opt_lower<const MIN: u64>(entries: &Vec<(String, Json)>, key: &str) -> (r: Option<
    Option<LowerBoundInt<MIN>>,
>)
    ensures
        match r {
            Some(Some(v)) => get_opt_int_min(entries_view(entries@), key@, MIN as int) == Some(
                Some(v@),
            ),
            Some(None) => get_opt_int_min(entries_view(entries@), key@, MIN as int) == Some(
                None::<int>,
            ),
            None => get_opt_int_min(entries_view(entries@), key@, MIN as int) is None,
        },
{
    match json_obj_get(entries, key) {
        None => Some(None),
        Some(v) => match v {
            Json::Null => Some(None),
            Json::Int(n) => match LowerBoundInt::<MIN>::new(*n) {
                Ok(b) => Some(Some(b)),
                Err(_) => None,
            },
            _ => None,
        },
    }
}

/// A non-empty string as a JSON value.
pub fn nes_json(v: &NonEmptyString) -> (r: Json)
    ensures
        jv(r) == JsonV::Str(v@),
{
    Json::Str(String::from_str(v.as_str()))
}

/// A 32-bit integer as a JSON value.
pub fn i32_json(n: i32) -> (r: Json)
    ensures
        jv(r) == JsonV::Int(n as int),
{
    Json::Int(n as i64)
}

/// A boolean as a JSON value.
pub fn bool_json(b: bool) -> (r: Json)
    ensures
        jv(r) == JsonV::Bool(b),
{
    Json::Bool(b)
}

/// A lower-bounded integer as a JSON value.
pub fn lower_json<const MIN: u64>(v: &LowerBoundInt<MIN>) -> (r: Json)
    ensures
        jv(r) == JsonV::Int(v@),
{
    Json::Int(v.get())
}

/// An upper-bounded integer as a JSON value.
pub fn upper_json<const MAX: u64>(v: &UpperBoundInt<MAX>) -> (r: Json)
    ensures
        jv(r) == JsonV::Int(v@),
{
    Json::Int(v.get())
}

/// An integer bounded on both sides as a JSON value.
pub fn bounded_json<const MIN: u64, const MAX: u64>(v: &BoundedInt<MIN, MAX>) -> (r: Json)
    ensures
        jv(r) == JsonV::Int(v@),
{
    Json::Int(v.get())
}

/// In a member list whose keys up to position `i` differ from the key at
/// `i`, lookup of that key lands on position `i`.
pub proof fn lemma_obj_get_at(es: Seq<(Seq<char>, JsonV)>, i: int)
    requires
        0 <= i < es.len(),
        forall|k: int| 0 <= k < i ==> (#[trigger] es[k]).0 != es[i].0,
    ensures
        obj_get(es, es[i].0) == Some(es[i].1),
{
    lemma_obj_get_skip(es, es[i].0, i);
    assert(es.skip(i).len() > 0);
    assert(es.skip(i)[0] == es[i]);
}

} // verus!
