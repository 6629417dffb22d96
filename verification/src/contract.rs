//! Contracts: obligations with payment terms and delivery requirements.

use vstd::prelude::*;

use crate::codec::{
    get_bool, get_i32, get_nes, get_str, bool_json, i32_json, json_get, json_get_bool,
    json_get_i32, json_get_nes, json_get_str, lemma_obj_get_at, nes_json,
};
use crate::conditional_types::NonEmptyString;
use crate::faction::FactionSymbol;
use crate::json::{
    jv_wf,
    entries_view, jv, jv_seq, lemma_entries_view, lemma_jv_seq, obj_get, str_eq, Json, JsonV,
};

verus! {

#[derive(Debug, Clone, Copy, PartialEq, Eq, Structural)]
pub enum ContractType {
    Procurement,
    Transport,
    Shuttle,
}

impl DeepView for ContractType {
    type V = ContractType;

    open spec fn deep_view(&self) -> ContractType {
        *self
    }
}

impl ContractType {
    /// The wire tag of this value.
    pub open spec fn tag_spec(self) -> Seq<char> {
        match self {
            ContractType::Procurement => "PROCUREMENT"@,
            ContractType::Transport => "TRANSPORT"@,
            ContractType::Shuttle => "SHUTTLE"@,
        }
    }

    /// The value a wire tag denotes, if any: tags are told apart by
    /// length first, then by content.
    pub open spec fn of_tag(s: Seq<char>) -> Option<ContractType> {
        if s.len() == 7 {
            if s == "SHUTTLE"@ {
                Some(ContractType::Shuttle)
            } else {
                None
            }
        } else if s.len() == 9 {
            if s == "TRANSPORT"@ {
                Some(ContractType::Transport)
            } else {
                None
            }
        } else if s.len() == 11 {
            if s == "PROCUREMENT"@ {
                Some(ContractType::Procurement)
            } else {
                None
            }
        } else {
            None
        }
    }

    /// The wire tag of this value.
    pub fn as_str(&self) -> (r: &'static str)
        ensures
            r@ == self.tag_spec(),
    {
        match self {
            ContractType::Procurement => "PROCUREMENT",
            ContractType::Transport => "TRANSPORT",
            ContractType::Shuttle => "SHUTTLE",
        }
    }

    /// Parse a wire tag; unknown tags are rejected.
    pub fn from_tag(s: &str) -> (r: Option<ContractType>)
        ensures
            r == ContractType::of_tag(s@),
    {
        let n = s.unicode_len();
        if n == 7 {
            if str_eq(s, "SHUTTLE") {
                Some(ContractType::Shuttle)
            } else {
                None
            }
        } else if n == 9 {
            if str_eq(s, "TRANSPORT") {
                Some(ContractType::Transport)
            } else {
                None
            }
        } else if n == 11 {
            if str_eq(s, "PROCUREMENT") {
                Some(ContractType::Procurement)
            } else {
                None
            }
        } else {
            None
        }
    }

    /// Writing a value's tag and reading it back yields the value.
    pub proof fn lemma_tag_round_trip(self)
        ensures
            ContractType::of_tag(self.tag_spec()) == Some(self),
    {
        match self {
            ContractType::Procurement => {
                reveal_strlit("PROCUREMENT");
            }
            ContractType::Transport => {
                reveal_strlit("TRANSPORT");
            }
            ContractType::Shuttle => {
                reveal_strlit("SHUTTLE");
            }
        }
    }
}

/// Payment terms of a contract.
#[derive(Debug)]
pub struct Payment {
    pub on_accepted: i32,
    pub on_fulfilled: i32,
}

/// The mathematical view of [`Payment`].
pub struct PaymentV {
    pub on_accepted: int,
    pub on_fulfilled: int,
}

impl DeepView for Payment {
    type V = PaymentV;

    open spec fn deep_view(&self) -> PaymentV {
        PaymentV {
            on_accepted: self.on_accepted as int,
            on_fulfilled: self.on_fulfilled as int,
        }
    }
}

/// Every constrained leaf of the view is within its bounds.
pub open spec fn payment_wf(v: PaymentV) -> bool {
    i32::MIN as int <= v.on_accepted && v.on_accepted <= i32::MAX as int
        && i32::MIN as int <= v.on_fulfilled && v.on_fulfilled <= i32::MAX as int
}

/// The JSON shape of a view.
pub open spec fn payment_to_jv(v: PaymentV) -> JsonV {
    JsonV::Obj(seq![
        ("onAccepted"@, JsonV::Int(v.on_accepted)),
        ("onFulfilled"@, JsonV::Int(v.on_fulfilled)),
    ])
}

/// Extract a view from a JSON value.
pub open spec fn payment_of_jv(j: JsonV) -> Option<PaymentV> {
    match j {
        JsonV::Obj(es) => payment_of_obj(es),
        _ => None,
    }
}

/// Extract a view from an object's members.
pub open spec fn payment_of_obj(es: Seq<(Seq<char>, JsonV)>) -> Option<PaymentV> {
    match (
        get_i32(es, "onAccepted"@),
        get_i32(es, "onFulfilled"@),
    ) {
        (Some(on_accepted), Some(on_fulfilled)) => Some(PaymentV { on_accepted, on_fulfilled }),
        _ => None,
    }
}

/// Writing a well-formed view and reading it back yields the view.
pub proof fn lemma_payment_round_trip(v: PaymentV)
    requires
        payment_wf(v),
    ensures
        payment_of_jv(payment_to_jv(v)) == Some(v),
{
    reveal_strlit("onAccepted");
    reveal_strlit("onFulfilled");
    let es = payment_to_jv(v)->Obj_0;
    assert(es.len() == 2);
    assert(es[0].0 == "onAccepted"@);
    assert(es[1].0 == "onFulfilled"@);
    lemma_obj_get_at(es, 0);
    lemma_obj_get_at(es, 1);
}

/// The JSON shape of a well-formed view is representable: every integer
/// in it fits.
pub proof fn lemma_payment_to_jv_wf(v: PaymentV)
    requires
        payment_wf(v),
    ensures
        jv_wf(payment_to_jv(v)),
{
    let es = payment_to_jv(v)->Obj_0;
    assert forall|i: int| 0 <= i < es.len() implies jv_wf((#[trigger] es[i]).1) by {
        assert(jv_wf(es[0].1));
        assert(jv_wf(es[1].1));
    }
}

impl Payment {
    /// Encode this value as a JSON object.
    pub fn to_json(&self) -> (r: Json)
        ensures
            jv(r) == payment_to_jv(self.deep_view()),
    {
        let mut entries: Vec<(String, Json)> = Vec::new();
        entries.push((String::from_str("onAccepted"), i32_json(self.on_accepted)));
        entries.push((String::from_str("onFulfilled"), i32_json(self.on_fulfilled)));
        proof {
            lemma_entries_view(entries@);
            let ev = entries_view(entries@);
            let target = payment_to_jv(self.deep_view())->Obj_0;
            assert(entries@.len() == 2);
            assert(target.len() == 2);
            assert(entries@[0].0@ == "onAccepted"@);
            assert(jv(entries@[0].1) == target[0].1);
            assert(ev[0] == target[0]);
            assert(entries@[1].0@ == "onFulfilled"@);
            assert(jv(entries@[1].1) == target[1].1);
            assert(ev[1] == target[1]);
            assert(ev =~= target);
        }
        Json::Obj(entries)
    }

    /// Decode a value; `None` exactly when the spec-level extraction
    /// fails, and every decoded value is well formed.
    pub fn from_json(j: &Json) -> (r: Option<Payment>)
        ensures
            match r {
                Some(v) => payment_of_jv(jv(*j)) == Some(v.deep_view()) && payment_wf(v.deep_view()),
                None => payment_of_jv(jv(*j)) is None,
            },
    {
        let entries = match j {
            Json::Obj(entries) => entries,
            _ => { return None; }
        };
        proof {
            assert(*j == Json::Obj(*entries));
        }
        let on_accepted = match json_get_i32(entries, "onAccepted") { Some(v) => v, None => { return None; } };
        let on_fulfilled = match json_get_i32(entries, "onFulfilled") { Some(v) => v, None => { return None; } };
        Some(Payment { on_accepted, on_fulfilled })
    }
}

/// One delivery obligation of a contract.
#[derive(Debug)]
pub struct DeliverInfo {
    pub trade_symbol: NonEmptyString,
    pub destination_symbol: NonEmptyString,
    pub units_required: i32,
    pub units_fulfilled: i32,
}

/// The mathematical view of [`DeliverInfo`].
pub struct DeliverInfoV {
    pub trade_symbol: Seq<char>,
    pub destination_symbol: Seq<char>,
    pub units_required: int,
    pub units_fulfilled: int,
}

impl DeepView for DeliverInfo {
    type V = DeliverInfoV;

    open spec fn deep_view(&self) -> DeliverInfoV {
        DeliverInfoV {
            trade_symbol: self.trade_symbol.deep_view(),
            destination_symbol: self.destination_symbol.deep_view(),
            units_required: self.units_required as int,
            units_fulfilled: self.units_fulfilled as int,
        }
    }
}

/// Every constrained leaf of the view is within its bounds.
pub open spec fn deliver_info_wf(v: DeliverInfoV) -> bool {
    v.trade_symbol.len() > 0
        && v.destination_symbol.len() > 0
        && i32::MIN as int <= v.units_required && v.units_required <= i32::MAX as int
        && i32::MIN as int <= v.units_fulfilled && v.units_fulfilled <= i32::MAX as int
}

/// The JSON shape of a view.
pub open spec fn deliver_info_to_jv(v: DeliverInfoV) -> JsonV {
    JsonV::Obj(seq![
        ("tradeSymbol"@, JsonV::Str(v.trade_symbol)),
        ("destinationSymbol"@, JsonV::Str(v.destination_symbol)),
        ("unitsRequired"@, JsonV::Int(v.units_required)),
        ("unitsFulfilled"@, JsonV::Int(v.units_fulfilled)),
    ])
}

/// Extract a view from a JSON value.
pub open spec fn deliver_info_of_jv(j: JsonV) -> Option<DeliverInfoV> {
    match j {
        JsonV::Obj(es) => deliver_info_of_obj(es),
        _ => None,
    }
}

/// Extract a view from an object's members.
pub open spec fn deliver_info_of_obj(es: Seq<(Seq<char>, JsonV)>) -> Option<DeliverInfoV> {
    match (
        get_nes(es, "tradeSymbol"@),
        get_nes(es, "destinationSymbol"@),
        get_i32(es, "unitsRequired"@),
        get_i32(es, "unitsFulfilled"@),
    ) {
        (Some(trade_symbol), Some(destination_symbol), Some(units_required), Some(units_fulfilled)) => Some(DeliverInfoV { trade_symbol, destination_symbol, units_required, units_fulfilled }),
        _ => None,
    }
}

/// Writing a well-formed view and reading it back yields the view.
pub proof fn lemma_deliver_info_round_trip(v: DeliverInfoV)
    requires
        deliver_info_wf(v),
    ensures
        deliver_info_of_jv(deliver_info_to_jv(v)) == Some(v),
{
    reveal_strlit("tradeSymbol");
    reveal_strlit("destinationSymbol");
    reveal_strlit("unitsRequired");
    reveal_strlit("unitsFulfilled");
    let es = deliver_info_to_jv(v)->Obj_0;
    assert(es.len() == 4);
    assert(es[0].0 == "tradeSymbol"@);
    assert(es[1].0 == "destinationSymbol"@);
    assert(es[2].0 == "unitsRequired"@);
    assert(es[3].0 == "unitsFulfilled"@);
    lemma_obj_get_at(es, 0);
    lemma_obj_get_at(es, 1);
    lemma_obj_get_at(es, 2);
    lemma_obj_get_at(es, 3);
}

/// The JSON shape of a well-formed view is representable: every integer
/// in it fits.
pub proof fn lemma_deliver_info_to_jv_wf(v: DeliverInfoV)
    requires
        deliver_info_wf(v),
    ensures
        jv_wf(deliver_info_to_jv(v)),
{
    let es = deliver_info_to_jv(v)->Obj_0;
    assert forall|i: int| 0 <= i < es.len() implies jv_wf((#[trigger] es[i]).1) by {
        assert(jv_wf(es[0].1));
        assert(jv_wf(es[1].1));
        assert(jv_wf(es[2].1));
        assert(jv_wf(es[3].1));
    }
}

impl DeliverInfo {
    /// Encode this value as a JSON object.
    pub fn to_json(&self) -> (r: Json)
        ensures
            jv(r) == deliver_info_to_jv(self.deep_view()),
    {
        let mut entries: Vec<(String, Json)> = Vec::new();
        entries.push((String::from_str("tradeSymbol"), nes_json(&self.trade_symbol)));
        entries.push((String::from_str("destinationSymbol"), nes_json(&self.destination_symbol)));
        entries.push((String::from_str("unitsRequired"), i32_json(self.units_required)));
        entries.push((String::from_str("unitsFulfilled"), i32_json(self.units_fulfilled)));
        proof {
            lemma_entries_view(entries@);
            let ev = entries_view(entries@);
            let target = deliver_info_to_jv(self.deep_view())->Obj_0;
            assert(entries@.len() == 4);
            assert(target.len() == 4);
            assert(entries@[0].0@ == "tradeSymbol"@);
            assert(jv(entries@[0].1) == target[0].1);
            assert(ev[0] == target[0]);
            assert(entries@[1].0@ == "destinationSymbol"@);
            assert(jv(entries@[1].1) == target[1].1);
            assert(ev[1] == target[1]);
            assert(entries@[2].0@ == "unitsRequired"@);
            assert(jv(entries@[2].1) == target[2].1);
            assert(ev[2] == target[2]);
            assert(entries@[3].0@ == "unitsFulfilled"@);
            assert(jv(entries@[3].1) == target[3].1);
            assert(ev[3] == target[3]);
            assert(ev =~= target);
        }
        Json::Obj(entries)
    }

    /// Decode a value; `None` exactly when the spec-level extraction
    /// fails, and every decoded value is well formed.
    pub fn from_json(j: &Json) -> (r: Option<DeliverInfo>)
        ensures
            match r {
                Some(v) => deliver_info_of_jv(jv(*j)) == Some(v.deep_view()) && deliver_info_wf(v.deep_view()),
                None => deliver_info_of_jv(jv(*j)) is None,
            },
    {
        let entries = match j {
            Json::Obj(entries) => entries,
            _ => { return None; }
        };
        proof {
            assert(*j == Json::Obj(*entries));
        }
        let trade_symbol = match json_get_nes(entries, "tradeSymbol") { Some(v) => v, None => { return None; } };
        let destination_symbol = match json_get_nes(entries, "destinationSymbol") { Some(v) => v, None => { return None; } };
        let units_required = match json_get_i32(entries, "unitsRequired") { Some(v) => v, None => { return None; } };
        let units_fulfilled = match json_get_i32(entries, "unitsFulfilled") { Some(v) => v, None => { return None; } };
        Some(DeliverInfo { trade_symbol, destination_symbol, units_required, units_fulfilled })
    }
}

/// The JSON array elements for a sequence of values.
pub open spec fn deliver_info_seq_to_jv(vs: Seq<DeliverInfoV>) -> Seq<JsonV>
    decreases vs.len(),
{
    if vs.len() == 0 {
        Seq::empty()
    } else {
        seq![deliver_info_to_jv(vs[0])] + deliver_info_seq_to_jv(vs.drop_first())
    }
}

/// Extract a sequence of values from JSON array elements.
pub open spec fn deliver_info_seq_of_jv(items: Seq<JsonV>) -> Option<Seq<DeliverInfoV>>
    decreases items.len(),
{
    if items.len() == 0 {
        Some(Seq::empty())
    } else {
        match (deliver_info_of_jv(items[0]), deliver_info_seq_of_jv(items.drop_first())) {
            (Some(v), Some(vs)) => Some(seq![v] + vs),
            _ => None,
        }
    }
}

/// Writing a sequence and reading it back yields the sequence.
pub proof fn lemma_deliver_info_seq_round_trip(vs: Seq<DeliverInfoV>)
    requires
        forall|i: int| 0 <= i < vs.len() ==> deliver_info_wf(#[trigger] vs[i]),
    ensures
        deliver_info_seq_of_jv(deliver_info_seq_to_jv(vs)) == Some(vs),
    decreases vs.len(),
{
    if vs.len() > 0 {
        lemma_deliver_info_round_trip(vs[0]);
        lemma_deliver_info_seq_round_trip(vs.drop_first());
        assert(deliver_info_seq_to_jv(vs).drop_first() =~= deliver_info_seq_to_jv(vs.drop_first()));
        assert(seq![vs[0]] + vs.drop_first() =~= vs);
    }
}

/// The JSON array of well-formed views is representable: every integer
/// in it fits.
pub proof fn lemma_deliver_info_seq_to_jv_wf(vs: Seq<DeliverInfoV>)
    requires
        forall|i: int| 0 <= i < vs.len() ==> deliver_info_wf(#[trigger] vs[i]),
    ensures
        forall|i: int| 0 <= i < deliver_info_seq_to_jv(vs).len() ==> jv_wf(
            #[trigger] deliver_info_seq_to_jv(vs)[i],
        ),
        jv_wf(JsonV::Arr(deliver_info_seq_to_jv(vs))),
    decreases vs.len(),
{
    if vs.len() > 0 {
        lemma_deliver_info_to_jv_wf(vs[0]);
        assert forall|i: int| 0 <= i < vs.drop_first().len() implies deliver_info_wf(
            #[trigger] vs.drop_first()[i],
        ) by {
            assert(vs.drop_first()[i] == vs[i + 1]);
        }
        lemma_deliver_info_seq_to_jv_wf(vs.drop_first());
        let ws = deliver_info_seq_to_jv(vs);
        let tl = deliver_info_seq_to_jv(vs.drop_first());
        assert(ws == seq![deliver_info_to_jv(vs[0])] + tl);
        assert(jv_wf(ws[0]));
        assert(jv_wf(JsonV::Arr(tl)));
        assert forall|i: int| 0 <= i < ws.len() implies jv_wf(#[trigger] ws[i]) by {
            if i > 0 {
                assert(ws[i] == tl[i - 1]);
                assert(jv_wf(tl[i - 1]));
            }
        }
    } else {
        assert(deliver_info_seq_to_jv(vs) =~= Seq::<JsonV>::empty());
    }
}

impl DeliverInfo {
    /// Encode a vector tail (from `k` on) as JSON array elements.
    pub fn vec_to_json(items: &Vec<DeliverInfo>, k: usize) -> (r: Vec<Json>)
        requires
            k <= items@.len(),
        ensures
            jv_seq(r@) == deliver_info_seq_to_jv(items.deep_view().skip(k as int)),
        decreases items@.len() - k,
    {
        let ghost dv = items.deep_view();
        if k == items.len() {
            let out: Vec<Json> = Vec::new();
            proof {
                assert(out@ =~= Seq::<Json>::empty());
                assert(jv_seq(out@) =~= Seq::<JsonV>::empty());
                assert(dv.skip(k as int) =~= Seq::<DeliverInfoV>::empty());
            }
            out
        } else {
            let mut rest = Self::vec_to_json(items, k + 1);
            let hd = items[k].to_json();
            let ghost restv = rest@;
            rest.insert(0, hd);
            proof {
                assert(rest@[0] == hd);
                assert(rest@.drop_first() =~= restv);
                assert(jv_seq(rest@) =~= seq![jv(hd)] + jv_seq(restv));
                assert(dv.skip(k as int)[0] == dv[k as int]);
                assert(dv.skip(k as int).drop_first() =~= dv.skip(k as int + 1));
                assert(jv_seq(rest@) =~= deliver_info_seq_to_jv(dv.skip(k as int)));
            }
            rest
        }
    }

    /// Encode a whole vector as a JSON array.
    pub fn vec_json(items: &Vec<DeliverInfo>) -> (r: Json)
        ensures
            jv(r) == JsonV::Arr(deliver_info_seq_to_jv(items.deep_view())),
    {
        let out = Self::vec_to_json(items, 0);
        proof {
            assert(items.deep_view().skip(0) =~= items.deep_view());
        }
        Json::Arr(out)
    }

    /// Decode a vector from JSON array elements, from `k` on.
    pub fn vec_from_json(items: &Vec<Json>, k: usize) -> (r: Option<Vec<DeliverInfo>>)
        requires
            k <= items@.len(),
        ensures
            match r {
                Some(vs) => deliver_info_seq_of_jv(jv_seq(items@).skip(k as int)) == Some(vs.deep_view())
                    && (forall|i: int| 0 <= i < vs.deep_view().len() ==> deliver_info_wf(#[trigger] vs.deep_view()[i])),
                None => deliver_info_seq_of_jv(jv_seq(items@).skip(k as int)) is None,
            },
        decreases items@.len() - k,
    {
        let ghost sv = jv_seq(items@);
        proof {
            lemma_jv_seq(items@);
        }
        if k == items.len() {
            let out: Vec<DeliverInfo> = Vec::new();
            proof {
                assert(sv.skip(k as int) =~= Seq::<JsonV>::empty());
                assert(out.deep_view() =~= Seq::<DeliverInfoV>::empty());
            }
            return Some(out);
        }
        proof {
            assert(sv.skip(k as int)[0] == sv[k as int]);
            assert(sv.skip(k as int).drop_first() =~= sv.skip(k as int + 1));
        }
        let hd = match DeliverInfo::from_json(&items[k]) {
            Some(v) => v,
            None => { return None; }
        };
        match Self::vec_from_json(items, k + 1) {
            Some(mut vs) => {
                let ghost older = vs.deep_view();
                vs.insert(0, hd);
                proof {
                    assert(vs.deep_view()[0] == hd.deep_view());
                    assert(vs.deep_view().drop_first() =~= older);
                    assert(vs.deep_view() =~= seq![hd.deep_view()] + older);
                }
                Some(vs)
            }
            None => None,
        }
    }

    /// Decode a vector from a JSON value that must be an array.
    pub fn vec_from_json_value(j: &Json) -> (r: Option<Vec<DeliverInfo>>)
        ensures
            match r {
                Some(vs) => (match jv(*j) {
                    JsonV::Arr(items) => deliver_info_seq_of_jv(items) == Some(vs.deep_view()),
                    _ => false,
                }) && (forall|i: int| 0 <= i < vs.deep_view().len() ==> deliver_info_wf(#[trigger] vs.deep_view()[i])),
                None => (match jv(*j) {
                    JsonV::Arr(items) => deliver_info_seq_of_jv(items) is None,
                    _ => true,
                }),
            },
    {
        let items = match j {
            Json::Arr(items) => items,
            _ => { return None; }
        };
        proof {
            assert(*j == Json::Arr(*items));
            assert(jv_seq(items@).skip(0) =~= jv_seq(items@));
        }
        Self::vec_from_json(items, 0)
    }
}

/// The terms of a contract: deadline, payment and deliveries.
#[derive(Debug)]
pub struct ContractTerms {
    pub deadline: NonEmptyString,
    pub payment: Payment,
    pub deliver: Vec<DeliverInfo>,
}

/// The mathematical view of [`ContractTerms`].
pub struct ContractTermsV {
    pub deadline: Seq<char>,
    pub payment: PaymentV,
    pub deliver: Seq<DeliverInfoV>,
}

impl DeepView for ContractTerms {
    type V = ContractTermsV;

    open spec fn deep_view(&self) -> ContractTermsV {
        ContractTermsV {
            deadline: self.deadline.deep_view(),
            payment: self.payment.deep_view(),
            deliver: self.deliver.deep_view(),
        }
    }
}

/// Every constrained leaf of the view is within its bounds.
pub open spec fn contract_terms_wf(v: ContractTermsV) -> bool {
    v.deadline.len() > 0
        && payment_wf(v.payment)
        && (forall|i: int| 0 <= i < v.deliver.len() ==> deliver_info_wf((#[trigger] v.deliver[i])))
}

/// The JSON shape of a view.
pub open spec fn contract_terms_to_jv(v: ContractTermsV) -> JsonV {
    JsonV::Obj(seq![
        ("deadline"@, JsonV::Str(v.deadline)),
        ("payment"@, payment_to_jv(v.payment)),
        ("deliver"@, JsonV::Arr(deliver_info_seq_to_jv(v.deliver))),
    ])
}

/// Extract a view from a JSON value.
pub open spec fn contract_terms_of_jv(j: JsonV) -> Option<ContractTermsV> {
    match j {
        JsonV::Obj(es) => contract_terms_of_obj(es),
        _ => None,
    }
}

/// Extract a view from an object's members.
pub open spec fn contract_terms_of_obj(es: Seq<(Seq<char>, JsonV)>) -> Option<ContractTermsV> {
    match (
        get_nes(es, "deadline"@),
        (match obj_get(es, "payment"@) { Some(sj) => payment_of_jv(sj), None => None }),
        (match obj_get(es, "deliver"@) { Some(JsonV::Arr(items)) => deliver_info_seq_of_jv(items), _ => None }),
    ) {
        (Some(deadline), Some(payment), Some(deliver)) => Some(ContractTermsV { deadline, payment, deliver }),
        _ => None,
    }
}

/// Writing a well-formed view and reading it back yields the view.
pub proof fn lemma_contract_terms_round_trip(v: ContractTermsV)
    requires
        contract_terms_wf(v),
    ensures
        contract_terms_of_jv(contract_terms_to_jv(v)) == Some(v),
{
    reveal_strlit("deadline");
    reveal_strlit("payment");
    reveal_strlit("deliver");
    lemma_payment_round_trip(v.payment);
    lemma_deliver_info_seq_round_trip(v.deliver);
    let es = contract_terms_to_jv(v)->Obj_0;
    assert(es.len() == 3);
    assert(es[0].0 == "deadline"@);
    assert(es[1].0 == "payment"@);
    assert(es[2].0 == "deliver"@);
    assert("deliver"@[0] != 'p');
    assert("payment"@[0] == 'p');
    lemma_obj_get_at(es, 0);
    lemma_obj_get_at(es, 1);
    lemma_obj_get_at(es, 2);
}

/// The JSON shape of a well-formed view is representable: every integer
/// in it fits.
pub proof fn lemma_contract_terms_to_jv_wf(v: ContractTermsV)
    requires
        contract_terms_wf(v),
    ensures
        jv_wf(contract_terms_to_jv(v)),
{
    lemma_payment_to_jv_wf(v.payment);
    lemma_deliver_info_seq_to_jv_wf(v.deliver);
    let es = contract_terms_to_jv(v)->Obj_0;
    assert forall|i: int| 0 <= i < es.len() implies jv_wf((#[trigger] es[i]).1) by {
        assert(jv_wf(es[0].1));
        assert(jv_wf(es[1].1));
        assert(jv_wf(es[2].1));
    }
}

impl ContractTerms {
    /// Encode this value as a JSON object.
    pub fn to_json(&self) -> (r: Json)
        ensures
            jv(r) == contract_terms_to_jv(self.deep_view()),
    {
        let mut entries: Vec<(String, Json)> = Vec::new();
        entries.push((String::from_str("deadline"), nes_json(&self.deadline)));
        entries.push((String::from_str("payment"), self.payment.to_json()));
        entries.push((String::from_str("deliver"), DeliverInfo::vec_json(&self.deliver)));
        proof {
            lemma_entries_view(entries@);
            let ev = entries_view(entries@);
            let target = contract_terms_to_jv(self.deep_view())->Obj_0;
            assert(entries@.len() == 3);
            assert(target.len() == 3);
            assert(entries@[0].0@ == "deadline"@);
            assert(jv(entries@[0].1) == target[0].1);
            assert(ev[0] == target[0]);
            assert(entries@[1].0@ == "payment"@);
            assert(jv(entries@[1].1) == target[1].1);
            assert(ev[1] == target[1]);
            assert(entries@[2].0@ == "deliver"@);
            assert(jv(entries@[2].1) == target[2].1);
            assert(ev[2] == target[2]);
            assert(ev =~= target);
        }
        Json::Obj(entries)
    }

    /// Decode a value; `None` exactly when the spec-level extraction
    /// fails, and every decoded value is well formed.
    pub fn from_json(j: &Json) -> (r: Option<ContractTerms>)
        ensures
            match r {
                Some(v) => contract_terms_of_jv(jv(*j)) == Some(v.deep_view()) && contract_terms_wf(v.deep_view()),
                None => contract_terms_of_jv(jv(*j)) is None,
            },
    {
        let entries = match j {
            Json::Obj(entries) => entries,
            _ => { return None; }
        };
        proof {
            assert(*j == Json::Obj(*entries));
        }
        let deadline = match json_get_nes(entries, "deadline") { Some(v) => v, None => { return None; } };
        let payment = match json_get(entries, "payment") {
            Some(sj) => match Payment::from_json(sj) {
                Some(v) => v,
                None => { return None; }
            },
            None => { return None; }
        };
        let deliver = match json_get(entries, "deliver") {
            Some(sj) => match DeliverInfo::vec_from_json_value(sj) {
                Some(v) => v,
                None => { return None; }
            },
            None => { return None; }
        };
        Some(ContractTerms { deadline, payment, deliver })
    }
}

/// A procurement/transport/shuttle obligation offered to the agent.
#[derive(Debug)]
pub struct Contract {
    pub id: NonEmptyString,
    pub faction_symbol: FactionSymbol,
    pub contract_type: ContractType,
    pub terms: ContractTerms,
    pub accepted: bool,
    pub fulfilled: bool,
    pub expiration: NonEmptyString,
}

/// The mathematical view of [`Contract`].
pub struct ContractV {
    pub id: Seq<char>,
    pub faction_symbol: FactionSymbol,
    pub contract_type: ContractType,
    pub terms: ContractTermsV,
    pub accepted: bool,
    pub fulfilled: bool,
    pub expiration: Seq<char>,
}

impl DeepView for Contract {
    type V = ContractV;

    open spec fn deep_view(&self) -> ContractV {
        ContractV {
            id: self.id.deep_view(),
            faction_symbol: self.faction_symbol,
            contract_type: self.contract_type,
            terms: self.terms.deep_view(),
            accepted: self.accepted,
            fulfilled: self.fulfilled,
            expiration: self.expiration.deep_view(),
        }
    }
}

/// Every constrained leaf of the view is within its bounds.
pub open spec fn contract_wf(v: ContractV) -> bool {
    v.id.len() > 0
        && contract_terms_wf(v.terms)
        && v.expiration.len() > 0
}

/// The JSON shape of a view.
pub open spec fn contract_to_jv(v: ContractV) -> JsonV {
    JsonV::Obj(seq![
        ("id"@, JsonV::Str(v.id)),
        ("factionSymbol"@, JsonV::Str(v.faction_symbol.tag_spec())),
        ("type"@, JsonV::Str(v.contract_type.tag_spec())),
        ("terms"@, contract_terms_to_jv(v.terms)),
        ("accepted"@, JsonV::Bool(v.accepted)),
        ("fulfilled"@, JsonV::Bool(v.fulfilled)),
        ("expiration"@, JsonV::Str(v.expiration)),
    ])
}

/// Extract a view from a JSON value.
pub open spec fn contract_of_jv(j: JsonV) -> Option<ContractV> {
    match j {
        JsonV::Obj(es) => contract_of_obj(es),
        _ => None,
    }
}

/// Extract a view from an object's members.
pub open spec fn contract_of_obj(es: Seq<(Seq<char>, JsonV)>) -> Option<ContractV> {
    match (
        get_nes(es, "id"@),
        (match get_str(es, "factionSymbol"@) { Some(s) => FactionSymbol::of_tag(s), None => None }),
        (match get_str(es, "type"@) { Some(s) => ContractType::of_tag(s), None => None }),
        (match obj_get(es, "terms"@) { Some(sj) => contract_terms_of_jv(sj), None => None }),
        get_bool(es, "accepted"@),
        get_bool(es, "fulfilled"@),
        get_nes(es, "expiration"@),
    ) {
        (Some(id), Some(faction_symbol), Some(contract_type), Some(terms), Some(accepted), Some(fulfilled), Some(expiration)) => Some(ContractV { id, faction_symbol, contract_type, terms, accepted, fulfilled, expiration }),
        _ => None,
    }
}

/// Writing a well-formed view and reading it back yields the view.
pub proof fn lemma_contract_round_trip(v: ContractV)
    requires
        contract_wf(v),
    ensures
        contract_of_jv(contract_to_jv(v)) == Some(v),
{
    reveal_strlit("id");
    reveal_strlit("factionSymbol");
    reveal_strlit("type");
    reveal_strlit("terms");
    reveal_strlit("accepted");
    reveal_strlit("fulfilled");
    reveal_strlit("expiration");
    v.faction_symbol.lemma_tag_round_trip();
    v.contract_type.lemma_tag_round_trip();
    lemma_contract_terms_round_trip(v.terms);
    let es = contract_to_jv(v)->Obj_0;
    assert(es.len() == 7);
    assert(es[0].0 == "id"@);
    assert(es[1].0 == "factionSymbol"@);
    assert(es[2].0 == "type"@);
    assert(es[3].0 == "terms"@);
    assert(es[4].0 == "accepted"@);
    assert(es[5].0 == "fulfilled"@);
    assert(es[6].0 == "expiration"@);
    lemma_obj_get_at(es, 0);
    lemma_obj_get_at(es, 1);
    lemma_obj_get_at(es, 2);
    lemma_obj_get_at(es, 3);
    lemma_obj_get_at(es, 4);
    lemma_obj_get_at(es, 5);
    lemma_obj_get_at(es, 6);
}

/// The JSON shape of a well-formed view is representable: every integer
/// in it fits.
pub proof fn lemma_contract_to_jv_wf(v: ContractV)
    requires
        contract_wf(v),
    ensures
        jv_wf(contract_to_jv(v)),
{
    lemma_contract_terms_to_jv_wf(v.terms);
    let es = contract_to_jv(v)->Obj_0;
    assert forall|i: int| 0 <= i < es.len() implies jv_wf((#[trigger] es[i]).1) by {
        assert(jv_wf(es[0].1));
        assert(jv_wf(es[1].1));
        assert(jv_wf(es[2].1));
        assert(jv_wf(es[3].1));
        assert(jv_wf(es[4].1));
        assert(jv_wf(es[5].1));
        assert(jv_wf(es[6].1));
    }
}

impl Contract {
    /// Encode this value as a JSON object.
    pub fn to_json(&self) -> (r: Json)
        ensures
            jv(r) == contract_to_jv(self.deep_view()),
    {
        let mut entries: Vec<(String, Json)> = Vec::new();
        entries.push((String::from_str("id"), nes_json(&self.id)));
        entries.push((String::from_str("factionSymbol"), Json::Str(String::from_str(self.faction_symbol.as_str()))));
        entries.push((String::from_str("type"), Json::Str(String::from_str(self.contract_type.as_str()))));
        entries.push((String::from_str("terms"), self.terms.to_json()));
        entries.push((String::from_str("accepted"), bool_json(self.accepted)));
        entries.push((String::from_str("fulfilled"), bool_json(self.fulfilled)));
        entries.push((String::from_str("expiration"), nes_json(&self.expiration)));
        proof {
            lemma_entries_view(entries@);
            let ev = entries_view(entries@);
            let target = contract_to_jv(self.deep_view())->Obj_0;
            assert(entries@.len() == 7);
            assert(target.len() == 7);
            assert(entries@[0].0@ == "id"@);
            assert(jv(entries@[0].1) == target[0].1);
            assert(ev[0] == target[0]);
            assert(entries@[1].0@ == "factionSymbol"@);
            assert(jv(entries@[1].1) == target[1].1);
            assert(ev[1] == target[1]);
            assert(entries@[2].0@ == "type"@);
            assert(jv(entries@[2].1) == target[2].1);
            assert(ev[2] == target[2]);
            assert(entries@[3].0@ == "terms"@);
            assert(jv(entries@[3].1) == target[3].1);
            assert(ev[3] == target[3]);
            assert(entries@[4].0@ == "accepted"@);
            assert(jv(entries@[4].1) == target[4].1);
            assert(ev[4] == target[4]);
            assert(entries@[5].0@ == "fulfilled"@);
            assert(jv(entries@[5].1) == target[5].1);
            assert(ev[5] == target[5]);
            assert(entries@[6].0@ == "expiration"@);
            assert(jv(entries@[6].1) == target[6].1);
            assert(ev[6] == target[6]);
            assert(ev =~= target);
        }
        Json::Obj(entries)
    }

    /// Decode a value; `None` exactly when the spec-level extraction
    /// fails, and every decoded value is well formed.
    pub fn from_json(j: &Json) -> (r: Option<Contract>)
        ensures
            match r {
                Some(v) => contract_of_jv(jv(*j)) == Some(v.deep_view()) && contract_wf(v.deep_view()),
                None => contract_of_jv(jv(*j)) is None,
            },
    {
        let entries = match j {
            Json::Obj(entries) => entries,
            _ => { return None; }
        };
        proof {
            assert(*j == Json::Obj(*entries));
        }
        let id = match json_get_nes(entries, "id") { Some(v) => v, None => { return None; } };
        let faction_symbol = match json_get_str(entries, "factionSymbol") {
            Some(s) => match FactionSymbol::from_tag(s.as_str()) {
                Some(v) => v,
                None => { return None; }
            },
            None => { return None; }
        };
        let contract_type = match json_get_str(entries, "type") {
            Some(s) => match ContractType::from_tag(s.as_str()) {
                Some(v) => v,
                None => { return None; }
            },
            None => { return None; }
        };
        let terms = match json_get(entries, "terms") {
            Some(sj) => match ContractTerms::from_json(sj) {
                Some(v) => v,
                None => { return None; }
            },
            None => { return None; }
        };
        let accepted = match json_get_bool(entries, "accepted") { Some(v) => v, None => { return None; } };
        let fulfilled = match json_get_bool(entries, "fulfilled") { Some(v) => v, None => { return None; } };
        let expiration = match json_get_nes(entries, "expiration") { Some(v) => v, None => { return None; } };
        Some(Contract { id, faction_symbol, contract_type, terms, accepted, fulfilled, expiration })
    }
}

/// The JSON array elements for a sequence of values.
pub open spec fn contract_seq_to_jv(vs: Seq<ContractV>) -> Seq<JsonV>
    decreases vs.len(),
{
    if vs.len() == 0 {
        Seq::empty()
    } else {
        seq![contract_to_jv(vs[0])] + contract_seq_to_jv(vs.drop_first())
    }
}

/// Extract a sequence of values from JSON array elements.
pub open spec fn contract_seq_of_jv(items: Seq<JsonV>) -> Option<Seq<ContractV>>
    decreases items.len(),
{
    if items.len() == 0 {
        Some(Seq::empty())
    } else {
        match (contract_of_jv(items[0]), contract_seq_of_jv(items.drop_first())) {
            (Some(v), Some(vs)) => Some(seq![v] + vs),
            _ => None,
        }
    }
}

/// Writing a sequence and reading it back yields the sequence.
pub proof fn lemma_contract_seq_round_trip(vs: Seq<ContractV>)
    requires
        forall|i: int| 0 <= i < vs.len() ==> contract_wf(#[trigger] vs[i]),
    ensures
        contract_seq_of_jv(contract_seq_to_jv(vs)) == Some(vs),
    decreases vs.len(),
{
    if vs.len() > 0 {
        lemma_contract_round_trip(vs[0]);
        lemma_contract_seq_round_trip(vs.drop_first());
        assert(contract_seq_to_jv(vs).drop_first() =~= contract_seq_to_jv(vs.drop_first()));
        assert(seq![vs[0]] + vs.drop_first() =~= vs);
    }
}

/// The JSON array of well-formed views is representable: every integer
/// in it fits.
pub proof fn lemma_contract_seq_to_jv_wf(vs: Seq<ContractV>)
    requires
        forall|i: int| 0 <= i < vs.len() ==> contract_wf(#[trigger] vs[i]),
    ensures
        forall|i: int| 0 <= i < contract_seq_to_jv(vs).len() ==> jv_wf(
            #[trigger] contract_seq_to_jv(vs)[i],
        ),
        jv_wf(JsonV::Arr(contract_seq_to_jv(vs))),
    decreases vs.len(),
{
    if vs.len() > 0 {
        lemma_contract_to_jv_wf(vs[0]);
        assert forall|i: int| 0 <= i < vs.drop_first().len() implies contract_wf(
            #[trigger] vs.drop_first()[i],
        ) by {
            assert(vs.drop_first()[i] == vs[i + 1]);
        }
        lemma_contract_seq_to_jv_wf(vs.drop_first());
        let ws = contract_seq_to_jv(vs);
        let tl = contract_seq_to_jv(vs.drop_first());
        assert(ws == seq![contract_to_jv(vs[0])] + tl);
        assert(jv_wf(ws[0]));
        assert(jv_wf(JsonV::Arr(tl)));
        assert forall|i: int| 0 <= i < ws.len() implies jv_wf(#[trigger] ws[i]) by {
            if i > 0 {
                assert(ws[i] == tl[i - 1]);
                assert(jv_wf(tl[i - 1]));
            }
        }
    } else {
        assert(contract_seq_to_jv(vs) =~= Seq::<JsonV>::empty());
    }
}

impl Contract {
    /// Encode a vector tail (from `k` on) as JSON array elements.
    pub fn vec_to_json(items: &Vec<Contract>, k: usize) -> (r: Vec<Json>)
        requires
            k <= items@.len(),
        ensures
            jv_seq(r@) == contract_seq_to_jv(items.deep_view().skip(k as int)),
        decreases items@.len() - k,
    {
        let ghost dv = items.deep_view();
        if k == items.len() {
            let out: Vec<Json> = Vec::new();
            proof {
                assert(out@ =~= Seq::<Json>::empty());
                assert(jv_seq(out@) =~= Seq::<JsonV>::empty());
                assert(dv.skip(k as int) =~= Seq::<ContractV>::empty());
            }
            out
        } else {
            let mut rest = Self::vec_to_json(items, k + 1);
            let hd = items[k].to_json();
            let ghost restv = rest@;
            rest.insert(0, hd);
            proof {
                assert(rest@[0] == hd);
                assert(rest@.drop_first() =~= restv);
                assert(jv_seq(rest@) =~= seq![jv(hd)] + jv_seq(restv));
                assert(dv.skip(k as int)[0] == dv[k as int]);
                assert(dv.skip(k as int).drop_first() =~= dv.skip(k as int + 1));
                assert(jv_seq(rest@) =~= contract_seq_to_jv(dv.skip(k as int)));
            }
            rest
        }
    }

    /// Encode a whole vector as a JSON array.
    pub fn vec_json(items: &Vec<Contract>) -> (r: Json)
        ensures
            jv(r) == JsonV::Arr(contract_seq_to_jv(items.deep_view())),
    {
        let out = Self::vec_to_json(items, 0);
        proof {
            assert(items.deep_view().skip(0) =~= items.deep_view());
        }
        Json::Arr(out)
    }

    /// Decode a vector from JSON array elements, from `k` on.
    pub fn vec_from_json(items: &Vec<Json>, k: usize) -> (r: Option<Vec<Contract>>)
        requires
            k <= items@.len(),
        ensures
            match r {
                Some(vs) => contract_seq_of_jv(jv_seq(items@).skip(k as int)) == Some(vs.deep_view())
                    && (forall|i: int| 0 <= i < vs.deep_view().len() ==> contract_wf(#[trigger] vs.deep_view()[i])),
                None => contract_seq_of_jv(jv_seq(items@).skip(k as int)) is None,
            },
        decreases items@.len() - k,
    {
        let ghost sv = jv_seq(items@);
        proof {
            lemma_jv_seq(items@);
        }
        if k == items.len() {
            let out: Vec<Contract> = Vec::new();
            proof {
                assert(sv.skip(k as int) =~= Seq::<JsonV>::empty());
                assert(out.deep_view() =~= Seq::<ContractV>::empty());
            }
            return Some(out);
        }
        proof {
            assert(sv.skip(k as int)[0] == sv[k as int]);
            assert(sv.skip(k as int).drop_first() =~= sv.skip(k as int + 1));
        }
        let hd = match Contract::from_json(&items[k]) {
            Some(v) => v,
            None => { return None; }
        };
        match Self::vec_from_json(items, k + 1) {
            Some(mut vs) => {
                let ghost older = vs.deep_view();
                vs.insert(0, hd);
                proof {
                    assert(vs.deep_view()[0] == hd.deep_view());
                    assert(vs.deep_view().drop_first() =~= older);
                    assert(vs.deep_view() =~= seq![hd.deep_view()] + older);
                }
                Some(vs)
            }
            None => None,
        }
    }

    /// Decode a vector from a JSON value that must be an array.
    pub fn vec_from_json_value(j: &Json) -> (r: Option<Vec<Contract>>)
        ensures
            match r {
                Some(vs) => (match jv(*j) {
                    JsonV::Arr(items) => contract_seq_of_jv(items) == Some(vs.deep_view()),
                    _ => false,
                }) && (forall|i: int| 0 <= i < vs.deep_view().len() ==> contract_wf(#[trigger] vs.deep_view()[i])),
                None => (match jv(*j) {
                    JsonV::Arr(items) => contract_seq_of_jv(items) is None,
                    _ => true,
                }),
            },
    {
        let items = match j {
            Json::Arr(items) => items,
            _ => { return None; }
        };
        proof {
            assert(*j == Json::Arr(*items));
            assert(jv_seq(items@).skip(0) =~= jv_seq(items@));
        }
        Self::vec_from_json(items, 0)
    }
}

} // verus!
