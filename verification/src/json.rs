//! The JSON value tree the library works on, with a verified renderer and
//! (further down) a verified parser for the subset of JSON this protocol
//! uses: null, booleans, 64-bit integers, strings, arrays and objects.
//!
//! Wire text is turned into a [`Json`] tree once, at the boundary; all
//! protocol logic (envelope classification, record extraction, the save-file
//! codec) is verified against the mathematical view [`JsonV`].

use vstd::prelude::*;

verus! {

/// The mathematical model of a JSON value: sequences instead of vectors,
/// unbounded integers instead of `i64`.
pub enum JsonV {
    Null,
    Bool(bool),
    Int(int),
    Str(Seq<char>),
    Arr(Seq<JsonV>),
    Obj(Seq<(Seq<char>, JsonV)>),
}

/// An in-memory JSON value. Object member order is kept; lookup takes the
/// first binding of a key.
#[derive(Debug)]
pub enum Json {
    Null,
    Bool(bool),
    Int(i64),
    Str(String),
    Arr(Vec<Json>),
    Obj(Vec<(String, Json)>),
}

/// The view of an in-memory JSON value.
pub open spec fn jv(j: Json) -> JsonV
    decreases j,
{
    match j {
        Json::Null => JsonV::Null,
        Json::Bool(b) => JsonV::Bool(b),
        Json::Int(n) => JsonV::Int(n as int),
        Json::Str(s) => JsonV::Str(s@),
        Json::Arr(items) => JsonV::Arr(jv_seq(items@)),
        Json::Obj(entries) => JsonV::Obj(entries_view(entries@)),
    }
}

/// The views of a sequence of values.
pub open spec fn jv_seq(items: Seq<Json>) -> Seq<JsonV>
    decreases items,
{
    if items.len() == 0 {
        Seq::empty()
    } else {
        seq![jv(items[0])] + jv_seq(items.drop_first())
    }
}

/// The view of an object's member list.
pub open spec fn entries_view(entries: Seq<(String, Json)>) -> Seq<(Seq<char>, JsonV)>
    decreases entries,
{
    if entries.len() == 0 {
        Seq::empty()
    } else {
        seq![(entries[0].0@, jv(entries[0].1))] + entries_view(entries.drop_first())
    }
}

/// Element-wise description of [`jv_seq`].
pub proof fn lemma_jv_seq(items: Seq<Json>)
    ensures
        jv_seq(items).len() == items.len(),
        forall|i: int| 0 <= i < items.len() ==> jv_seq(items)[i] == jv(#[trigger] items[i]),
    decreases items.len(),
{
    if items.len() > 0 {
        lemma_jv_seq(items.drop_first());
        assert forall|i: int| 0 <= i < items.len() implies jv_seq(items)[i] == jv(
            #[trigger] items[i],
        ) by {
            if i > 0 {
                assert(items.drop_first()[i - 1] == items[i]);
                assert(jv_seq(items)[i] == jv_seq(items.drop_first())[i - 1]);
            }
        }
    }
}

/// Element-wise description of [`entries_view`].
pub proof fn lemma_entries_view(entries: Seq<(String, Json)>)
    ensures
        entries_view(entries).len() == entries.len(),
        forall|i: int| 0 <= i < entries.len() ==> entries_view(entries)[i] == ((
            #[trigger] entries[i]).0@, jv(entries[i].1)),
    decreases entries.len(),
{
    if entries.len() > 0 {
        lemma_entries_view(entries.drop_first());
        assert forall|i: int| 0 <= i < entries.len() implies entries_view(entries)[i] == ((
            #[trigger] entries[i]).0@, jv(entries[i].1)) by {
            if i > 0 {
                assert(entries.drop_first()[i - 1] == entries[i]);
                assert(entries_view(entries)[i] == entries_view(entries.drop_first())[i - 1]);
            }
        }
    }
}

impl View for Json {
    type V = JsonV;

    open spec fn view(&self) -> JsonV {
        jv(*self)
    }
}

impl DeepView for Json {
    type V = JsonV;

    open spec fn deep_view(&self) -> JsonV {
        jv(*self)
    }
}

/// A view value that an in-memory [`Json`] value can represent: every
/// integer in it fits in an `i64`.
pub open spec fn jv_wf(j: JsonV) -> bool
    decreases j,
{
    match j {
        JsonV::Int(n) => i64::MIN as int <= n && n <= i64::MAX as int,
        JsonV::Arr(items) => forall|i: int|
            0 <= i < items.len() ==> jv_wf(#[trigger] items[i]),
        JsonV::Obj(entries) => forall|i: int|
            0 <= i < entries.len() ==> jv_wf(#[trigger] entries[i].1),
        _ => true,
    }
}

/// First binding of `key` among the members of an object.
pub open spec fn obj_get(entries: Seq<(Seq<char>, JsonV)>, key: Seq<char>) -> Option<JsonV>
    decreases entries.len(),
{
    if entries.len() == 0 {
        None
    } else if entries[0].0 == key {
        Some(entries[0].1)
    } else {
        obj_get(entries.drop_first(), key)
    }
}

pub proof fn lemma_obj_get_skip(entries: Seq<(Seq<char>, JsonV)>, key: Seq<char>, i: int)
    requires
        0 <= i <= entries.len(),
        forall|k: int| 0 <= k < i ==> (#[trigger] entries[k]).0 != key,
    ensures
        obj_get(entries, key) == obj_get(entries.skip(i), key),
    decreases i,
{
    if i > 0 {
        assert(entries.skip(0) =~= entries);
        lemma_obj_get_skip(entries.drop_first(), key, i - 1);
        assert(entries.drop_first().skip(i - 1) =~= entries.skip(i));
    } else {
        assert(entries.skip(0) =~= entries);
    }
}

/// Character-wise string equality, specified against the views.
pub fn str_eq(a: &str, b: &str) -> (r: bool)
    ensures
        r == (a@ == b@),
{
    let alen = a.unicode_len();
    let blen = b.unicode_len();
    if alen != blen {
        return false;
    }
    let mut i: usize = 0;
    while i < alen
        invariant
            i <= alen,
            alen == a@.len(),
            blen == b@.len(),
            alen == blen,
            forall|k: int| 0 <= k < i ==> a@[k] == b@[k],
        decreases alen - i,
    {
        if a.get_char(i) != b.get_char(i) {
            return false;
        }
        i += 1;
    }
    proof {
        assert(a@ =~= b@);
    }
    true
}

/// Look a key up in an object's member list; the first binding wins.
pub fn json_obj_get<'a>(entries: &'a Vec<(String, Json)>, key: &str) -> (r: Option<&'a Json>)
    ensures
        match r {
            Some(v) => obj_get(entries_view(entries@), key@) == Some(jv(*v)),
            None => obj_get(entries_view(entries@), key@) is None,
        },
{
    let ghost ev = entries_view(entries@);
    proof {
        lemma_entries_view(entries@);
    }
    let n = entries.len();
    let mut i: usize = 0;
    while i < n
        invariant
            i <= n,
            n == entries@.len(),
            ev == entries_view(entries@),
            ev.len() == entries@.len(),
            forall|k: int| 0 <= k < entries@.len() ==> ev[k] == ((#[trigger] entries@[k]).0@, jv(
                entries@[k].1)),
            forall|k: int| 0 <= k < i ==> (#[trigger] ev[k]).0 != key@,
        decreases n - i,
    {
        if str_eq(entries[i].0.as_str(), key) {
            proof {
                lemma_obj_get_skip(ev, key@, i as int);
                assert(ev.skip(i as int).len() > 0);
                assert(ev.skip(i as int)[0] == ev[i as int]);
            }
            return Some(&entries[i].1);
        }
        i += 1;
    }
    proof {
        lemma_obj_get_skip(ev, key@, n as int);
        assert(ev.skip(n as int).len() == 0);
    }
    None
}

/// Relies on `String::from_iter`: collecting characters yields the string of
/// exactly those characters, in order.
#[verifier::external_body]
pub(crate) fn string_from_chars(chars: &Vec<char>) -> (r: String)
    ensures
        r@ == chars@,
{
    chars.iter().copied().collect()
}

/// The characters of a string slice, as a vector.
pub fn str_to_chars(s: &str) -> (r: Vec<char>)
    ensures
        r@ == s@,
{
    let n = s.unicode_len();
    let mut out: Vec<char> = Vec::new();
    let mut i: usize = 0;
    while i < n
        invariant
            i <= n,
            n == s@.len(),
            out@ == s@.subrange(0, i as int),
        decreases n - i,
    {
        out.push(s.get_char(i));
        proof {
            assert(out@ =~= s@.subrange(0, i as int + 1));
        }
        i += 1;
    }
    proof {
        assert(s@.subrange(0, n as int) =~= s@);
    }
    out
}

// ---------------------------------------------------------------------------
// Rendering
// ---------------------------------------------------------------------------

/// How one character of a string is written inside a JSON string literal.
pub open spec fn esc_char(c: char) -> Seq<char> {
    if c == '"' {
        seq!['\\', '"']
    } else if c == '\\' {
        seq!['\\', '\\']
    } else if c == '\n' {
        seq!['\\', 'n']
    } else if c == '\r' {
        seq!['\\', 'r']
    } else if c == '\t' {
        seq!['\\', 't']
    } else {
        seq![c]
    }
}

/// The escaped body of a JSON string literal.
pub open spec fn esc(s: Seq<char>) -> Seq<char>
    decreases s.len(),
{
    if s.len() == 0 {
        Seq::empty()
    } else {
        esc_char(s[0]) + esc(s.drop_first())
    }
}

pub proof fn lemma_esc_push(s: Seq<char>, c: char)
    ensures
        esc(s.push(c)) == esc(s) + esc_char(c),
    decreases s.len(),
{
    if s.len() == 0 {
        assert(s.push(c)[0] == c);
        assert(s.push(c).drop_first() =~= Seq::<char>::empty());
        assert(esc(Seq::<char>::empty()) == Seq::<char>::empty());
        assert(esc(s.push(c)) =~= esc_char(c));
        assert(esc(s) + esc_char(c) =~= esc_char(c));
    } else {
        assert(s.push(c).drop_first() =~= s.drop_first().push(c));
        lemma_esc_push(s.drop_first(), c);
        assert(esc(s.push(c)) =~= esc(s) + esc_char(c));
    }
}

/// The decimal digit character for `d` in `0 ..= 9`.
pub open spec fn digit_char(d: int) -> char {
    if d == 0 {
        '0'
    } else if d == 1 {
        '1'
    } else if d == 2 {
        '2'
    } else if d == 3 {
        '3'
    } else if d == 4 {
        '4'
    } else if d == 5 {
        '5'
    } else if d == 6 {
        '6'
    } else if d == 7 {
        '7'
    } else if d == 8 {
        '8'
    } else {
        '9'
    }
}

/// Decimal digits of a non-negative integer, most significant first.
pub open spec fn udigits(n: int) -> Seq<char>
    decreases n,
{
    if n < 10 {
        seq![digit_char(n)]
    } else {
        udigits(n / 10) + seq![digit_char(n % 10)]
    }
}

/// The rendering of an integer: optional minus sign, then digits.
pub open spec fn int_chars(n: int) -> Seq<char> {
    if n < 0 {
        seq!['-'] + udigits(-n)
    } else {
        udigits(n)
    }
}

/// The canonical rendering of a JSON value: no whitespace, keys in member
/// order, strings escaped by [`esc_char`].
pub open spec fn ren(j: JsonV) -> Seq<char>
    decreases j,
{
    match j {
        JsonV::Null => seq!['n', 'u', 'l', 'l'],
        JsonV::Bool(b) => if b {
            seq!['t', 'r', 'u', 'e']
        } else {
            seq!['f', 'a', 'l', 's', 'e']
        },
        JsonV::Int(n) => int_chars(n),
        JsonV::Str(s) => seq!['"'] + esc(s) + seq!['"'],
        JsonV::Arr(items) => seq!['['] + ren_items(items) + seq![']'],
        JsonV::Obj(entries) => seq!['{'] + ren_entries(entries) + seq!['}'],
    }
}

/// The comma-separated renderings of array elements.
pub open spec fn ren_items(items: Seq<JsonV>) -> Seq<char>
    decreases items,
{
    if items.len() == 0 {
        Seq::empty()
    } else if items.len() == 1 {
        ren(items[0])
    } else {
        ren(items[0]) + seq![','] + ren_items(items.drop_first())
    }
}

/// The comma-separated renderings of object members.
pub open spec fn ren_entries(entries: Seq<(Seq<char>, JsonV)>) -> Seq<char>
    decreases entries,
{
    if entries.len() == 0 {
        Seq::empty()
    } else {
        let head = seq!['"'] + esc(entries[0].0) + seq!['"', ':'] + ren(entries[0].1);
        if entries.len() == 1 {
            head
        } else {
            head + seq![','] + ren_entries(entries.drop_first())
        }
    }
}

pub proof fn lemma_ren_items_push(items: Seq<JsonV>, v: JsonV)
    ensures
        items.len() == 0 ==> ren_items(items.push(v)) == ren(v),
        items.len() > 0 ==> ren_items(items.push(v)) == ren_items(items) + seq![','] + ren(v),
    decreases items.len(),
{
    if items.len() == 0 {
        assert(items.push(v)[0] == v);
        assert(ren_items(items.push(v)) == ren(v));
    } else {
        assert(items.push(v).drop_first() =~= items.drop_first().push(v));
        lemma_ren_items_push(items.drop_first(), v);
        if items.len() == 1 {
            assert(ren_items(items.push(v)) =~= ren_items(items) + seq![','] + ren(v));
        } else {
            assert(ren_items(items.push(v)) =~= ren_items(items) + seq![','] + ren(v));
        }
    }
}

pub proof fn lemma_ren_entries_push(entries: Seq<(Seq<char>, JsonV)>, e: (Seq<char>, JsonV))
    ensures
        entries.len() == 0 ==> ren_entries(entries.push(e)) == seq!['"'] + esc(e.0) + seq!['"', ':']
            + ren(e.1),
        entries.len() > 0 ==> ren_entries(entries.push(e)) == ren_entries(entries) + seq![',']
            + (seq!['"'] + esc(e.0) + seq!['"', ':'] + ren(e.1)),
    decreases entries.len(),
{
    if entries.len() == 0 {
        assert(entries.push(e)[0] == e);
    } else {
        assert(entries.push(e).drop_first() =~= entries.drop_first().push(e));
        lemma_ren_entries_push(entries.drop_first(), e);
        if entries.len() == 1 {
            assert(ren_entries(entries.push(e)) =~= ren_entries(entries) + seq![','] + (seq!['"']
                + esc(e.0) + seq!['"', ':'] + ren(e.1)));
        } else {
            assert(ren_entries(entries.push(e)) =~= ren_entries(entries) + seq![','] + (seq!['"']
                + esc(e.0) + seq!['"', ':'] + ren(e.1)));
        }
    }
}

fn digit_char_exec(d: u64) -> (c: char)
    requires
        d < 10,
    ensures
        c == digit_char(d as int),
{
    if d == 0 {
        '0'
    } else if d == 1 {
        '1'
    } else if d == 2 {
        '2'
    } else if d == 3 {
        '3'
    } else if d == 4 {
        '4'
    } else if d == 5 {
        '5'
    } else if d == 6 {
        '6'
    } else if d == 7 {
        '7'
    } else if d == 8 {
        '8'
    } else {
        '9'
    }
}

fn write_u64(n: u64, out: &mut Vec<char>)
    ensures
        final(out)@ == old(out)@ + udigits(n as int),
    decreases n,
{
    if n < 10 {
        out.push(digit_char_exec(n));
        proof {
            assert(out@ =~= old(out)@ + udigits(n as int));
        }
    } else {
        write_u64(n / 10, out);
        out.push(digit_char_exec(n % 10));
        proof {
            assert(out@ =~= old(out)@ + udigits(n as int));
        }
    }
}

fn write_i64(n: i64, out: &mut Vec<char>)
    ensures
        final(out)@ == old(out)@ + int_chars(n as int),
{
    if n < 0 {
        out.push('-');
        let m: u64 = if n == i64::MIN {
            9223372036854775808u64
        } else {
            (-n) as u64
        };
        proof {
            assert(m as int == -(n as int));
        }
        write_u64(m, out);
        proof {
            assert(out@ =~= old(out)@ + int_chars(n as int));
        }
    } else {
        write_u64(n as u64, out);
    }
}

fn write_escaped(s: &str, out: &mut Vec<char>)
    ensures
        final(out)@ == old(out)@ + esc(s@),
{
    let n = s.unicode_len();
    let mut i: usize = 0;
    while i < n
        invariant
            i <= n,
            n == s@.len(),
            out@ == old(out)@ + esc(s@.subrange(0, i as int)),
        decreases n - i,
    {
        let c = s.get_char(i);
        if c == '"' {
            out.push('\\');
            out.push('"');
        } else if c == '\\' {
            out.push('\\');
            out.push('\\');
        } else if c == '\n' {
            out.push('\\');
            out.push('n');
        } else if c == '\r' {
            out.push('\\');
            out.push('r');
        } else if c == '\t' {
            out.push('\\');
            out.push('t');
        } else {
            out.push(c);
        }
        proof {
            lemma_esc_push(s@.subrange(0, i as int), c);
            assert(s@.subrange(0, i as int).push(c) =~= s@.subrange(0, i as int + 1));
            assert(out@ =~= old(out)@ + esc(s@.subrange(0, i as int + 1)));
        }
        i += 1;
    }
    proof {
        assert(s@.subrange(0, n as int) =~= s@);
    }
}

fn write_json(j: &Json, out: &mut Vec<char>)
    ensures
        final(out)@ == old(out)@ + ren(jv(*j)),
    decreases *j,
{
    match j {
        Json::Null => {
            out.push('n');
            out.push('u');
            out.push('l');
            out.push('l');
            proof {
                assert(out@ =~= old(out)@ + ren(jv(*j)));
            }
        }
        Json::Bool(b) => {
            if *b {
                out.push('t');
                out.push('r');
                out.push('u');
                out.push('e');
            } else {
                out.push('f');
                out.push('a');
                out.push('l');
                out.push('s');
                out.push('e');
            }
            proof {
                assert(out@ =~= old(out)@ + ren(jv(*j)));
            }
        }
        Json::Int(n) => {
            write_i64(*n, out);
        }
        Json::Str(s) => {
            out.push('"');
            write_escaped(s.as_str(), out);
            out.push('"');
            proof {
                assert(out@ =~= old(out)@ + ren(jv(*j)));
            }
        }
        Json::Arr(items) => {
            out.push('[');
            let ghost iv = jv_seq(items@);
            proof {
                lemma_jv_seq(items@);
            }
            let n = items.len();
            let mut k: usize = 0;
            while k < n
                invariant
                    k <= n,
                    n == items@.len(),
                    *j == Json::Arr(*items),
                    iv == jv_seq(items@),
                    iv.len() == items@.len(),
                    forall|i: int| 0 <= i < items@.len() ==> iv[i] == jv(#[trigger] items@[i]),
                    out@ == old(out)@ + seq!['['] + ren_items(iv.subrange(0, k as int)),
                decreases n - k,
            {
                if k > 0 {
                    out.push(',');
                }
                proof {
                    assert(*j == Json::Arr(*items));
                    assert(decreases_to!(*j => (*j)->Arr_0));
                    assert((*j)->Arr_0 == *items);
                    assert(decreases_to!(*items => items@));
                    assert(decreases_to!(items@ => items@[k as int]));
                }
                write_json(&items[k], out);
                proof {
                    lemma_ren_items_push(iv.subrange(0, k as int), iv[k as int]);
                    assert(iv.subrange(0, k as int).push(iv[k as int]) =~= iv.subrange(
                        0,
                        k as int + 1,
                    ));
                    assert(out@ =~= old(out)@ + seq!['['] + ren_items(iv.subrange(0, k as int + 1)));
                }
                k += 1;
            }
            out.push(']');
            proof {
                assert(*j == Json::Arr(*items));
                assert(iv.subrange(0, n as int) =~= iv);
                assert(jv(*j) == JsonV::Arr(iv));
                assert(out@ =~= old(out)@ + ren(jv(*j)));
            }
        }
        Json::Obj(entries) => {
            out.push('{');
            let ghost ev = entries_view(entries@);
            proof {
                lemma_entries_view(entries@);
            }
            let n = entries.len();
            let mut k: usize = 0;
            while k < n
                invariant
                    k <= n,
                    n == entries@.len(),
                    *j == Json::Obj(*entries),
                    ev == entries_view(entries@),
                    ev.len() == entries@.len(),
                    forall|i: int| 0 <= i < entries@.len() ==> ev[i] == ((
                        #[trigger] entries@[i]).0@, jv(entries@[i].1)),
                    out@ == old(out)@ + seq!['{'] + ren_entries(ev.subrange(0, k as int)),
                decreases n - k,
            {
                if k > 0 {
                    out.push(',');
                }
                out.push('"');
                write_escaped(entries[k].0.as_str(), out);
                out.push('"');
                out.push(':');
                proof {
                    assert(*j == Json::Obj(*entries));
                    assert(decreases_to!(*j => (*j)->Obj_0));
                    assert((*j)->Obj_0 == *entries);
                    assert(decreases_to!(*entries => entries@));
                    assert(decreases_to!(entries@ => entries@[k as int]));
                    assert(decreases_to!(entries@[k as int] => entries@[k as int].1));
                }
                write_json(&entries[k].1, out);
                proof {
                    lemma_ren_entries_push(ev.subrange(0, k as int), ev[k as int]);
                    assert(ev.subrange(0, k as int).push(ev[k as int]) =~= ev.subrange(
                        0,
                        k as int + 1,
                    ));
                    assert(out@ =~= old(out)@ + seq!['{'] + ren_entries(
                        ev.subrange(0, k as int + 1),
                    ));
                }
                k += 1;
            }
            out.push('}');
            proof {
                assert(*j == Json::Obj(*entries));
                assert(ev.subrange(0, n as int) =~= ev);
                assert(jv(*j) == JsonV::Obj(ev));
                assert(out@ =~= old(out)@ + ren(jv(*j)));
            }
        }
    }
}

/// Render a JSON value to its canonical text.
pub fn render_json(j: &Json) -> (r: String)
    ensures
        r@ == ren(j@),
{
    let mut out: Vec<char> = Vec::new();
    write_json(j, &mut out);
    string_from_chars(&out)
}

// ---------------------------------------------------------------------------
// Parsing
// ---------------------------------------------------------------------------

/// JSON whitespace.
pub open spec fn is_ws(c: char) -> bool {
    c == ' ' || c == '\t' || c == '\n' || c == '\r'
}

/// The suffix left after leading whitespace.
pub open spec fn skip_ws(s: Seq<char>) -> Seq<char>
    decreases s.len(),
{
    if s.len() > 0 && is_ws(s[0]) {
        skip_ws(s.drop_first())
    } else {
        s
    }
}

pub open spec fn is_digit(c: char) -> bool {
    c == '0' || c == '1' || c == '2' || c == '3' || c == '4' || c == '5' || c == '6' || c == '7'
        || c == '8' || c == '9'
}

/// The value of a decimal digit character.
pub open spec fn digit_val(c: char) -> int {
    if c == '0' {
        0
    } else if c == '1' {
        1
    } else if c == '2' {
        2
    } else if c == '3' {
        3
    } else if c == '4' {
        4
    } else if c == '5' {
        5
    } else if c == '6' {
        6
    } else if c == '7' {
        7
    } else if c == '8' {
        8
    } else {
        9
    }
}

/// The character written by an escape sequence, if the escape is recognized.
pub open spec fn unesc_char(c: char) -> Option<char> {
    if c == '"' {
        Some('"')
    } else if c == '\\' {
        Some('\\')
    } else if c == '/' {
        Some('/')
    } else if c == 'n' {
        Some('\n')
    } else if c == 'r' {
        Some('\r')
    } else if c == 't' {
        Some('\t')
    } else if c == 'b' {
        Some('\u{0008}')
    } else if c == 'f' {
        Some('\u{000C}')
    } else {
        None
    }
}

/// Parse the body of a string literal after the opening quote: the decoded
/// characters and the suffix after the closing quote.
pub open spec fn p_str_body(s: Seq<char>) -> Option<(Seq<char>, Seq<char>)>
    decreases s.len(),
{
    if s.len() == 0 {
        None
    } else if s[0] == '"' {
        Some((Seq::empty(), s.drop_first()))
    } else if s[0] == '\\' {
        if s.len() < 2 {
            None
        } else {
            match unesc_char(s[1]) {
                Some(c) => match p_str_body(s.skip(2)) {
                    Some(br) => Some((seq![c] + br.0, br.1)),
                    None => None,
                },
                None => None,
            }
        }
    } else {
        match p_str_body(s.drop_first()) {
            Some(br) => Some((seq![s[0]] + br.0, br.1)),
            None => None,
        }
    }
}

/// Consume decimal digits, accumulating left to right onto `acc`.
pub open spec fn p_digits(s: Seq<char>, acc: int) -> (int, Seq<char>)
    decreases s.len(),
{
    if s.len() > 0 && is_digit(s[0]) {
        p_digits(s.drop_first(), acc * 10 + digit_val(s[0]))
    } else {
        (acc, s)
    }
}

/// Parse an integer: an optional minus sign and digits, rejected when the
/// value does not fit in an `i64`.
pub open spec fn p_int(s: Seq<char>) -> Option<(int, Seq<char>)> {
    if s.len() > 0 && s[0] == '-' {
        if s.len() > 1 && is_digit(s[1]) {
            let vr = p_digits(s.drop_first(), 0);
            if -vr.0 >= i64::MIN as int {
                Some((-vr.0, vr.1))
            } else {
                None
            }
        } else {
            None
        }
    } else if s.len() > 0 && is_digit(s[0]) {
        let vr = p_digits(s, 0);
        if vr.0 <= i64::MAX as int {
            Some((vr.0, vr.1))
        } else {
            None
        }
    } else {
        None
    }
}

/// Parse one JSON value from the front of `s`, returning it with the
/// unconsumed suffix.
pub open spec fn p_val(s: Seq<char>) -> Option<(JsonV, Seq<char>)>
    decreases s.len(), 0int,
{
    let t = skip_ws(s);
    if t.len() == 0 {
        None
    } else if t[0] == 'n' {
        if t.len() >= 4 && t[1] == 'u' && t[2] == 'l' && t[3] == 'l' {
            Some((JsonV::Null, t.skip(4)))
        } else {
            None
        }
    } else if t[0] == 't' {
        if t.len() >= 4 && t[1] == 'r' && t[2] == 'u' && t[3] == 'e' {
            Some((JsonV::Bool(true), t.skip(4)))
        } else {
            None
        }
    } else if t[0] == 'f' {
        if t.len() >= 5 && t[1] == 'a' && t[2] == 'l' && t[3] == 's' && t[4] == 'e' {
            Some((JsonV::Bool(false), t.skip(5)))
        } else {
            None
        }
    } else if t[0] == '"' {
        match p_str_body(t.drop_first()) {
            Some(br) => Some((JsonV::Str(br.0), br.1)),
            None => None,
        }
    } else if t[0] == '[' {
        let u = skip_ws(t.drop_first());
        if u.len() > 0 && u[0] == ']' {
            Some((JsonV::Arr(Seq::empty()), u.drop_first()))
        } else if t.drop_first().len() < s.len() {
            match p_items(t.drop_first()) {
                Some(vr) => Some((JsonV::Arr(vr.0), vr.1)),
                None => None,
            }
        } else {
            None
        }
    } else if t[0] == '{' {
        let u = skip_ws(t.drop_first());
        if u.len() > 0 && u[0] == '}' {
            Some((JsonV::Obj(Seq::empty()), u.drop_first()))
        } else if t.drop_first().len() < s.len() {
            match p_entries(t.drop_first()) {
                Some(er) => Some((JsonV::Obj(er.0), er.1)),
                None => None,
            }
        } else {
            None
        }
    } else {
        match p_int(t) {
            Some(nr) => Some((JsonV::Int(nr.0), nr.1)),
            None => None,
        }
    }
}

/// Parse the elements of a non-empty array, up to and including the closing
/// bracket.
pub open spec fn p_items(s: Seq<char>) -> Option<(Seq<JsonV>, Seq<char>)>
    decreases s.len(), 1int,
{
    match p_val(s) {
        Some(vr) => {
            let u = skip_ws(vr.1);
            if u.len() > 0 && u[0] == ',' {
                if u.drop_first().len() < s.len() {
                    match p_items(u.drop_first()) {
                        Some(ir) => Some((seq![vr.0] + ir.0, ir.1)),
                        None => None,
                    }
                } else {
                    None
                }
            } else if u.len() > 0 && u[0] == ']' {
                Some((seq![vr.0], u.drop_first()))
            } else {
                None
            }
        }
        None => None,
    }
}

/// Parse the members of a non-empty object, up to and including the closing
/// brace.
pub open spec fn p_entries(s: Seq<char>) -> Option<(Seq<(Seq<char>, JsonV)>, Seq<char>)>
    decreases s.len(), 1int,
{
    let t = skip_ws(s);
    if t.len() > 0 && t[0] == '"' {
        match p_str_body(t.drop_first()) {
            Some(kr) => {
                let u = skip_ws(kr.1);
                if u.len() > 0 && u[0] == ':' && u.drop_first().len() < s.len() {
                    match p_val(u.drop_first()) {
                        Some(vr) => {
                            let w = skip_ws(vr.1);
                            if w.len() > 0 && w[0] == ',' {
                                if w.drop_first().len() < s.len() {
                                    match p_entries(w.drop_first()) {
                                        Some(er) => Some((seq![(kr.0, vr.0)] + er.0, er.1)),
                                        None => None,
                                    }
                                } else {
                                    None
                                }
                            } else if w.len() > 0 && w[0] == '}' {
                                Some((seq![(kr.0, vr.0)], w.drop_first()))
                            } else {
                                None
                            }
                        }
                        None => None,
                    }
                } else {
                    None
                }
            }
            None => None,
        }
    } else {
        None
    }
}

/// Parse a complete text as one JSON value with nothing but whitespace after
/// it.
pub open spec fn parse_json_spec(s: Seq<char>) -> Option<JsonV> {
    match p_val(s) {
        Some(vr) => if skip_ws(vr.1).len() == 0 {
            Some(vr.0)
        } else {
            None
        },
        None => None,
    }
}

/// The suffix of `s` from position `i`.
pub open spec fn suffix(s: Seq<char>, i: int) -> Seq<char> {
    s.subrange(i, s.len() as int)
}

pub proof fn lemma_suffix_step(s: Seq<char>, i: int)
    requires
        0 <= i < s.len(),
    ensures
        suffix(s, i).drop_first() == suffix(s, i + 1),
        suffix(s, i)[0] == s[i],
        suffix(s, i).len() == s.len() - i,
{
    assert(suffix(s, i).drop_first() =~= suffix(s, i + 1));
}

proof fn lemma_suffix_skip(s: Seq<char>, i: int, k: int)
    requires
        0 <= i,
        0 <= k,
        i + k <= s.len(),
    ensures
        suffix(s, i).skip(k) == suffix(s, i + k),
{
    assert(suffix(s, i).skip(k) =~= suffix(s, i + k));
}

fn is_ws_exec(c: char) -> (r: bool)
    ensures
        r == is_ws(c),
{
    c == ' ' || c == '\t' || c == '\n' || c == '\r'
}

fn skip_ws_exec(s: &Vec<char>, i: usize) -> (r: usize)
    requires
        i <= s@.len(),
    ensures
        i <= r <= s@.len(),
        skip_ws(suffix(s@, i as int)) == suffix(s@, r as int),
    decreases s@.len() - i,
{
    let mut r = i;
    while r < s.len() && is_ws_exec(s[r])
        invariant
            i <= r <= s@.len(),
            skip_ws(suffix(s@, i as int)) == skip_ws(suffix(s@, r as int)),
        decreases s@.len() - r,
    {
        proof {
            lemma_suffix_step(s@, r as int);
        }
        r += 1;
    }
    proof {
        if r < s.len() {
            lemma_suffix_step(s@, r as int);
        } else {
            assert(suffix(s@, r as int).len() == 0);
        }
        assert(skip_ws(suffix(s@, r as int)) == suffix(s@, r as int));
    }
    r
}

fn unesc_char_exec(c: char) -> (r: Option<char>)
    ensures
        r == unesc_char(c),
{
    if c == '"' {
        Some('"')
    } else if c == '\\' {
        Some('\\')
    } else if c == '/' {
        Some('/')
    } else if c == 'n' {
        Some('\n')
    } else if c == 'r' {
        Some('\r')
    } else if c == 't' {
        Some('\t')
    } else if c == 'b' {
        Some('\u{0008}')
    } else if c == 'f' {
        Some('\u{000C}')
    } else {
        None
    }
}

fn parse_str_body(s: &Vec<char>, i: usize) -> (r: Option<(Vec<char>, usize)>)
    requires
        i <= s@.len(),
    ensures
        match r {
            Some(br) => i <= br.1 <= s@.len() && p_str_body(suffix(s@, i as int)) == Some(
                (br.0@, suffix(s@, br.1 as int)),
            ),
            None => p_str_body(suffix(s@, i as int)) is None,
        },
    decreases s@.len() - i,
{
    let ghost ss = suffix(s@, i as int);
    if i == s.len() {
        proof {
            assert(ss.len() == 0);
        }
        return None;
    }
    proof {
        lemma_suffix_step(s@, i as int);
    }
    let c = s[i];
    if c == '"' {
        let body: Vec<char> = Vec::new();
        proof {
            assert(body@ =~= Seq::<char>::empty());
        }
        Some((body, i + 1))
    } else if c == '\\' {
        if i + 1 == s.len() {
            proof {
                assert(ss.len() == 1);
            }
            return None;
        }
        proof {
            assert(ss[1] == s@[i as int + 1]);
        }
        match unesc_char_exec(s[i + 1]) {
            Some(d) => {
                proof {
                    lemma_suffix_skip(s@, i as int, 2);
                }
                match parse_str_body(s, i + 2) {
                    Some((mut body, ni)) => {
                        body.insert(0, d);
                        proof {
                            assert(body@ =~= seq![d] + body@.drop_first());
                        }
                        Some((body, ni))
                    }
                    None => None,
                }
            }
            None => None,
        }
    } else {
        match parse_str_body(s, i + 1) {
            Some((mut body, ni)) => {
                body.insert(0, c);
                proof {
                    assert(body@ =~= seq![c] + body@.drop_first());
                }
                Some((body, ni))
            }
            None => None,
        }
    }
}

fn is_digit_exec(c: char) -> (r: bool)
    ensures
        r == is_digit(c),
{
    c == '0' || c == '1' || c == '2' || c == '3' || c == '4' || c == '5' || c == '6' || c == '7'
        || c == '8' || c == '9'
}

fn digit_val_exec(c: char) -> (r: u64)
    requires
        is_digit(c),
    ensures
        r as int == digit_val(c),
        r < 10,
{
    if c == '0' {
        0
    } else if c == '1' {
        1
    } else if c == '2' {
        2
    } else if c == '3' {
        3
    } else if c == '4' {
        4
    } else if c == '5' {
        5
    } else if c == '6' {
        6
    } else if c == '7' {
        7
    } else if c == '8' {
        8
    } else {
        9
    }
}

/// Accumulate digits left to right. `big` says that the exact value has
/// outgrown `acc`; from then on only a lower bound is maintained.
fn parse_digits(s: &Vec<char>, i: usize, acc: u64, big: bool, Ghost(sacc): Ghost<int>) -> (r: (
    u64,
    bool,
    usize,
))
    requires
        i <= s@.len(),
        sacc >= 0,
        !big ==> sacc == acc as int,
        big ==> sacc > 9223372036854775808int,
    ensures
        i <= r.2 <= s@.len(),
        p_digits(suffix(s@, i as int), sacc).1 == suffix(s@, r.2 as int),
        !r.1 ==> p_digits(suffix(s@, i as int), sacc).0 == r.0 as int,
        r.1 ==> p_digits(suffix(s@, i as int), sacc).0 > 9223372036854775808int,
    decreases s@.len() - i,
{
    let ghost ss = suffix(s@, i as int);
    if i == s.len() {
        proof {
            assert(ss.len() == 0);
        }
        return (acc, big, i);
    }
    proof {
        lemma_suffix_step(s@, i as int);
    }
    let c = s[i];
    if !is_digit_exec(c) {
        return (acc, big, i);
    }
    let d = digit_val_exec(c);
    let ghost sacc2 = sacc * 10 + digit_val(c);
    proof {
        assert(sacc2 >= sacc && sacc2 >= 0) by (nonlinear_arith)
            requires
                sacc >= 0,
                sacc2 == sacc * 10 + digit_val(c),
                0 <= digit_val(c) < 10,
        ;
    }
    if big {
        proof {
            assert(sacc2 > 9223372036854775808int) by (nonlinear_arith)
                requires
                    sacc > 9223372036854775808int,
                    sacc2 == sacc * 10 + digit_val(c),
                    digit_val(c) >= 0,
            ;
        }
        parse_digits(s, i + 1, acc, true, Ghost(sacc2))
    } else if acc > (u64::MAX - 9) / 10 {
        proof {
            assert(sacc2 > 9223372036854775808int) by (nonlinear_arith)
                requires
                    sacc == acc as int,
                    acc > (u64::MAX - 9) / 10,
                    sacc2 == sacc * 10 + digit_val(c),
                    digit_val(c) >= 0,
            ;
        }
        parse_digits(s, i + 1, acc, true, Ghost(sacc2))
    } else {
        let acc2 = acc * 10 + d;
        parse_digits(s, i + 1, acc2, false, Ghost(sacc2))
    }
}

fn parse_int(s: &Vec<char>, i: usize) -> (r: Option<(i64, usize)>)
    requires
        i <= s@.len(),
    ensures
        match r {
            Some(nr) => i <= nr.1 <= s@.len() && p_int(suffix(s@, i as int)) == Some(
                (nr.0 as int, suffix(s@, nr.1 as int)),
            ),
            None => p_int(suffix(s@, i as int)) is None,
        },
{
    let ghost ss = suffix(s@, i as int);
    if i == s.len() {
        proof {
            assert(ss.len() == 0);
        }
        return None;
    }
    proof {
        lemma_suffix_step(s@, i as int);
    }
    let c = s[i];
    if c == '-' {
        if i + 1 == s.len() {
            proof {
                assert(ss.len() == 1);
            }
            return None;
        }
        proof {
            assert(ss[1] == s@[i as int + 1]);
        }
        if !is_digit_exec(s[i + 1]) {
            return None;
        }
        let (acc, big, ni) = parse_digits(s, i + 1, 0, false, Ghost(0int));
        let ghost dv = p_digits(ss.drop_first(), 0);
        if big {
            proof {
                assert(-dv.0 < i64::MIN as int);
            }
            None
        } else if acc > 9223372036854775808u64 {
            None
        } else if acc == 9223372036854775808u64 {
            Some((i64::MIN, ni))
        } else {
            Some((-(acc as i64), ni))
        }
    } else if is_digit_exec(c) {
        let (acc, big, ni) = parse_digits(s, i, 0, false, Ghost(0int));
        if big {
            None
        } else if acc > i64::MAX as u64 {
            None
        } else {
            Some((acc as i64, ni))
        }
    } else {
        None
    }
}

fn parse_val(s: &Vec<char>, i: usize) -> (r: Option<(Json, usize)>)
    requires
        i <= s@.len(),
    ensures
        match r {
            Some(vr) => i <= vr.1 <= s@.len() && p_val(suffix(s@, i as int)) == Some(
                (jv(vr.0), suffix(s@, vr.1 as int)),
            ),
            None => p_val(suffix(s@, i as int)) is None,
        },
    decreases s@.len() - i, 0int,
{
    let ghost ss = suffix(s@, i as int);
    let m = skip_ws_exec(s, i);
    let ghost t = suffix(s@, m as int);
    if m == s.len() {
        proof {
            assert(t.len() == 0);
        }
        return None;
    }
    proof {
        lemma_suffix_step(s@, m as int);
    }
    let c = s[m];
    if c == 'n' {
        if s.len() - m >= 4 && s[m + 1] == 'u' && s[m + 2] == 'l' && s[m + 3] == 'l' {
            proof {
                assert(t[1] == s@[m as int + 1] && t[2] == s@[m as int + 2] && t[3] == s@[m as int
                    + 3]);
                lemma_suffix_skip(s@, m as int, 4);
            }
            Some((Json::Null, m + 4))
        } else {
            proof {
                if t.len() >= 4 {
                    assert(t[1] == s@[m as int + 1] && t[2] == s@[m as int + 2] && t[3] == s@[
                        m as int + 3]);
                }
            }
            None
        }
    } else if c == 't' {
        if s.len() - m >= 4 && s[m + 1] == 'r' && s[m + 2] == 'u' && s[m + 3] == 'e' {
            proof {
                assert(t[1] == s@[m as int + 1] && t[2] == s@[m as int + 2] && t[3] == s@[m as int
                    + 3]);
                lemma_suffix_skip(s@, m as int, 4);
            }
            Some((Json::Bool(true), m + 4))
        } else {
            proof {
                if t.len() >= 4 {
                    assert(t[1] == s@[m as int + 1] && t[2] == s@[m as int + 2] && t[3] == s@[
                        m as int + 3]);
                }
            }
            None
        }
    } else if c == 'f' {
        if s.len() - m >= 5 && s[m + 1] == 'a' && s[m + 2] == 'l' && s[m + 3] == 's' && s[m + 4]
            == 'e' {
            proof {
                assert(t[1] == s@[m as int + 1] && t[2] == s@[m as int + 2] && t[3] == s@[m as int
                    + 3] && t[4] == s@[m as int + 4]);
                lemma_suffix_skip(s@, m as int, 5);
            }
            Some((Json::Bool(false), m + 5))
        } else {
            proof {
                if t.len() >= 5 {
                    assert(t[1] == s@[m as int + 1] && t[2] == s@[m as int + 2] && t[3] == s@[
                        m as int + 3] && t[4] == s@[m as int + 4]);
                }
            }
            None
        }
    } else if c == '"' {
        match parse_str_body(s, m + 1) {
            Some((body, ni)) => Some((Json::Str(string_from_chars(&body)), ni)),
            None => None,
        }
    } else if c == '[' {
        let u = skip_ws_exec(s, m + 1);
        if u < s.len() && s[u] == ']' {
            let items: Vec<Json> = Vec::new();
            proof {
                lemma_suffix_step(s@, u as int);
                assert(items@ =~= Seq::<Json>::empty());
            }
            Some((Json::Arr(items), u + 1))
        } else {
            proof {
                if u < s.len() {
                    lemma_suffix_step(s@, u as int);
                } else {
                    assert(suffix(s@, u as int).len() == 0);
                }
            }
            match parse_items(s, m + 1) {
                Some((items, ni)) => Some((Json::Arr(items), ni)),
                None => None,
            }
        }
    } else if c == '{' {
        let u = skip_ws_exec(s, m + 1);
        if u < s.len() && s[u] == '}' {
            let entries: Vec<(String, Json)> = Vec::new();
            proof {
                lemma_suffix_step(s@, u as int);
                assert(entries@ =~= Seq::<(String, Json)>::empty());
            }
            Some((Json::Obj(entries), u + 1))
        } else {
            proof {
                if u < s.len() {
                    lemma_suffix_step(s@, u as int);
                } else {
                    assert(suffix(s@, u as int).len() == 0);
                }
            }
            match parse_entries(s, m + 1) {
                Some((entries, ni)) => Some((Json::Obj(entries), ni)),
                None => None,
            }
        }
    } else {
        match parse_int(s, m) {
            Some((n, ni)) => Some((Json::Int(n), ni)),
            None => None,
        }
    }
}

fn parse_items(s: &Vec<char>, i: usize) -> (r: Option<(Vec<Json>, usize)>)
    requires
        i <= s@.len(),
    ensures
        match r {
            Some(ir) => i <= ir.1 <= s@.len() && p_items(suffix(s@, i as int)) == Some(
                (jv_seq(ir.0@), suffix(s@, ir.1 as int)),
            ),
            None => p_items(suffix(s@, i as int)) is None,
        },
    decreases s@.len() - i, 1int,
{
    let ghost ss = suffix(s@, i as int);
    match parse_val(s, i) {
        None => None,
        Some((v, ni)) => {
            let u = skip_ws_exec(s, ni);
            if u < s.len() {
                proof {
                    lemma_suffix_step(s@, u as int);
                }
                let uc = s[u];
                if uc == ',' {
                    match parse_items(s, u + 1) {
                        Some((mut items, ni2)) => {
                            let ghost older = items@;
                            items.insert(0, v);
                            proof {
                                assert(items@[0] == v);
                                assert(items@.drop_first() =~= older);
                                assert(jv_seq(items@) =~= seq![jv(v)] + jv_seq(older));
                            }
                            Some((items, ni2))
                        }
                        None => None,
                    }
                } else if uc == ']' {
                    let mut items: Vec<Json> = Vec::new();
                    items.push(v);
                    proof {
                        assert(items@[0] == v);
                        assert(items@.drop_first() =~= Seq::<Json>::empty());
                        assert(jv_seq(Seq::<Json>::empty()) =~= Seq::<JsonV>::empty());
                        assert(jv_seq(items@) =~= seq![jv(v)]);
                    }
                    Some((items, u + 1))
                } else {
                    None
                }
            } else {
                proof {
                    assert(suffix(s@, u as int).len() == 0);
                }
                None
            }
        }
    }
}

fn parse_entries(s: &Vec<char>, i: usize) -> (r: Option<(Vec<(String, Json)>, usize)>)
    requires
        i <= s@.len(),
    ensures
        match r {
            Some(er) => i <= er.1 <= s@.len() && p_entries(suffix(s@, i as int)) == Some(
                (entries_view(er.0@), suffix(s@, er.1 as int)),
            ),
            None => p_entries(suffix(s@, i as int)) is None,
        },
    decreases s@.len() - i, 1int,
{
    let ghost ss = suffix(s@, i as int);
    let m = skip_ws_exec(s, i);
    let ghost t = suffix(s@, m as int);
    if m == s.len() {
        proof {
            assert(t.len() == 0);
        }
        return None;
    }
    proof {
        lemma_suffix_step(s@, m as int);
    }
    if s[m] != '"' {
        return None;
    }
    match parse_str_body(s, m + 1) {
        None => None,
        Some((key, ni)) => {
            let u = skip_ws_exec(s, ni);
            if u == s.len() {
                proof {
                    assert(suffix(s@, u as int).len() == 0);
                }
                return None;
            }
            proof {
                lemma_suffix_step(s@, u as int);
            }
            if s[u] != ':' {
                return None;
            }
            match parse_val(s, u + 1) {
                None => None,
                Some((v, ni2)) => {
                    let w = skip_ws_exec(s, ni2);
                    if w == s.len() {
                        proof {
                            assert(suffix(s@, w as int).len() == 0);
                        }
                        return None;
                    }
                    proof {
                        lemma_suffix_step(s@, w as int);
                    }
                    let wc = s[w];
                    if wc == ',' {
                        match parse_entries(s, w + 1) {
                            Some((mut entries, ni3)) => {
                                let ghost older = entries@;
                                let ks = string_from_chars(&key);
                                entries.insert(0, (ks, v));
                                proof {
                                    assert(entries@[0].0@ == key@ && entries@[0].1 == v);
                                    assert(entries@.drop_first() =~= older);
                                    assert(entries_view(entries@) =~= seq![(key@, jv(v))]
                                        + entries_view(older));
                                }
                                Some((entries, ni3))
                            }
                            None => None,
                        }
                    } else if wc == '}' {
                        let mut entries: Vec<(String, Json)> = Vec::new();
                        entries.push((string_from_chars(&key), v));
                        proof {
                            assert(entries@[0].0@ == key@ && entries@[0].1 == v);
                            assert(entries@.drop_first() =~= Seq::<(String, Json)>::empty());
                            assert(entries_view(Seq::<(String, Json)>::empty()) =~= Seq::<
                                (Seq<char>, JsonV),
                            >::empty());
                            assert(entries_view(entries@) =~= seq![(key@, jv(v))]);
                        }
                        Some((entries, w + 1))
                    } else {
                        None
                    }
                }
            }
        }
    }
}

/// Parse a complete JSON text into a value; exactly the texts accepted by
/// [`parse_json_spec`] succeed, and the result is that value.
pub fn parse_json(text: &str) -> (r: Option<Json>)
    ensures
        match r {
            Some(j) => parse_json_spec(text@) == Some(jv(j)),
            None => parse_json_spec(text@) is None,
        },
{
    let chars = str_to_chars(text);
    proof {
        assert(suffix(chars@, 0) =~= text@);
    }
    match parse_val(&chars, 0) {
        Some((j, ni)) => {
            let e = skip_ws_exec(&chars, ni);
            if e == chars.len() {
                proof {
                    assert(suffix(chars@, e as int).len() == 0);
                }
                Some(j)
            } else {
                proof {
                    assert(suffix(chars@, e as int).len() > 0);
                }
                None
            }
        }
        None => None,
    }
}

/// A deep copy: the clone has the same view.
pub fn json_clone(j: &Json) -> (r: Json)
    ensures
        jv(r) == jv(*j),
    decreases *j, 0int,
{
    match j {
        Json::Null => Json::Null,
        Json::Bool(b) => Json::Bool(*b),
        Json::Int(n) => Json::Int(*n),
        Json::Str(s) => Json::Str(s.clone()),
        Json::Arr(items) => {
            proof {
                assert(*j == Json::Arr(*items));
                assert(decreases_to!(*j => (*j)->Arr_0));
                assert((*j)->Arr_0 == *items);
            }
            let cloned = json_clone_vec(items, 0);
            proof {
                assert(jv_seq(items@).skip(0) =~= jv_seq(items@));
            }
            Json::Arr(cloned)
        }
        Json::Obj(entries) => {
            proof {
                assert(*j == Json::Obj(*entries));
                assert(decreases_to!(*j => (*j)->Obj_0));
                assert((*j)->Obj_0 == *entries);
            }
            let cloned = json_clone_entries(entries, 0);
            proof {
                assert(entries_view(entries@).skip(0) =~= entries_view(entries@));
            }
            Json::Obj(cloned)
        }
    }
}

fn json_clone_vec(items: &Vec<Json>, k: usize) -> (r: Vec<Json>)
    requires
        k <= items@.len(),
    ensures
        jv_seq(r@) == jv_seq(items@).skip(k as int),
    decreases *items, items@.len() - k,
{
    let ghost sv = jv_seq(items@);
    proof {
        lemma_jv_seq(items@);
    }
    if k == items.len() {
        let out: Vec<Json> = Vec::new();
        proof {
            assert(out@ =~= Seq::<Json>::empty());
            assert(jv_seq(out@) =~= sv.skip(k as int));
        }
        out
    } else {
        proof {
            assert(decreases_to!(*items => items@));
            assert(decreases_to!(items@ => items@[k as int]));
        }
        let hd = json_clone(&items[k]);
        let mut rest = json_clone_vec(items, k + 1);
        let ghost restv = rest@;
        rest.insert(0, hd);
        proof {
            assert(rest@[0] == hd);
            assert(rest@.drop_first() =~= restv);
            assert(jv_seq(rest@) =~= seq![jv(hd)] + jv_seq(restv));
            assert(sv.skip(k as int)[0] == sv[k as int]);
            assert(sv.skip(k as int).drop_first() =~= sv.skip(k as int + 1));
            assert(jv_seq(rest@) =~= sv.skip(k as int));
        }
        rest
    }
}

fn json_clone_entries(entries: &Vec<(String, Json)>, k: usize) -> (r: Vec<(String, Json)>)
    requires
        k <= entries@.len(),
    ensures
        entries_view(r@) == entries_view(entries@).skip(k as int),
    decreases *entries, entries@.len() - k,
{
    let ghost ev = entries_view(entries@);
    proof {
        lemma_entries_view(entries@);
    }
    if k == entries.len() {
        let out: Vec<(String, Json)> = Vec::new();
        proof {
            assert(out@ =~= Seq::<(String, Json)>::empty());
            assert(entries_view(out@) =~= ev.skip(k as int));
        }
        out
    } else {
        proof {
            assert(decreases_to!(*entries => entries@));
            assert(decreases_to!(entries@ => entries@[k as int]));
            assert(decreases_to!(entries@[k as int] => entries@[k as int].1));
        }
        let kstr = entries[k].0.clone();
        let kval = json_clone(&entries[k].1);
        let mut rest = json_clone_entries(entries, k + 1);
        let ghost restv = rest@;
        rest.insert(0, (kstr, kval));
        proof {
            assert(rest@[0].0@ == entries@[k as int].0@ && jv(rest@[0].1) == jv(
                entries@[k as int].1,
            ));
            assert(rest@.drop_first() =~= restv);
            assert(entries_view(rest@) =~= seq![(entries@[k as int].0@, jv(entries@[k as int].1))]
                + entries_view(restv));
            assert(ev.skip(k as int)[0] == ev[k as int]);
            assert(ev.skip(k as int).drop_first() =~= ev.skip(k as int + 1));
            assert(entries_view(rest@) =~= ev.skip(k as int));
        }
        rest
    }
}

/// A deep copy of a vector of values, element views kept.
pub fn json_clone_items(items: &Vec<Json>) -> (r: Vec<Json>)
    ensures
        jv_seq(r@) == jv_seq(items@),
{
    let out = json_clone_vec(items, 0);
    proof {
        assert(jv_seq(items@).skip(0) =~= jv_seq(items@));
    }
    out
}

/// The string of the characters `chars[from .. to]`.
pub fn chars_to_string_range(chars: &Vec<char>, from: usize, to: usize) -> (r: String)
    requires
        from <= to <= chars@.len(),
    ensures
        r@ == chars@.subrange(from as int, to as int),
{
    let mut out: Vec<char> = Vec::new();
    let mut i = from;
    while i < to
        invariant
            from <= i <= to <= chars@.len(),
            out@ == chars@.subrange(from as int, i as int),
        decreases to - i,
    {
        out.push(chars[i]);
        proof {
            assert(out@ =~= chars@.subrange(from as int, i as int + 1));
        }
        i += 1;
    }
    string_from_chars(&out)
}

// ---------------------------------------------------------------------------
// The parser inverts the renderer
// ---------------------------------------------------------------------------

/// The decimal value of a digit string folded onto `acc`.
pub open spec fn dval(ds: Seq<char>, acc: int) -> int
    decreases ds.len(),
{
    if ds.len() == 0 {
        acc
    } else {
        dval(ds.drop_first(), acc * 10 + digit_val(ds[0]))
    }
}

proof fn lemma_udigits_digits(n: int)
    requires
        n >= 0,
    ensures
        udigits(n).len() >= 1,
        forall|i: int| 0 <= i < udigits(n).len() ==> is_digit(#[trigger] udigits(n)[i]),
    decreases n,
{
    if n >= 10 {
        lemma_udigits_digits(n / 10);
        assert forall|i: int| 0 <= i < udigits(n).len() implies is_digit(
            #[trigger] udigits(n)[i],
        ) by {
            if i < udigits(n / 10).len() {
                assert(udigits(n)[i] == udigits(n / 10)[i]);
            } else {
                assert(udigits(n)[i] == digit_char(n % 10));
            }
        }
    }
}

proof fn lemma_p_digits_all(ds: Seq<char>, rest: Seq<char>, acc: int)
    requires
        forall|i: int| 0 <= i < ds.len() ==> is_digit(#[trigger] ds[i]),
        rest.len() == 0 || !is_digit(rest[0]),
    ensures
        p_digits(ds + rest, acc) == (dval(ds, acc), rest),
    decreases ds.len(),
{
    if ds.len() == 0 {
        assert(ds + rest =~= rest);
    } else {
        assert((ds + rest)[0] == ds[0]);
        assert((ds + rest).drop_first() =~= ds.drop_first() + rest);
        lemma_p_digits_all(ds.drop_first(), rest, acc * 10 + digit_val(ds[0]));
    }
}

proof fn lemma_dval_append(ds: Seq<char>, c: char, acc: int)
    ensures
        dval(ds.push(c), acc) == dval(ds, acc) * 10 + digit_val(c),
    decreases ds.len(),
{
    if ds.len() == 0 {
        assert(ds.push(c)[0] == c);
        assert(ds.push(c).drop_first() =~= Seq::<char>::empty());
        assert(dval(Seq::<char>::empty(), acc * 10 + digit_val(c)) == acc * 10 + digit_val(c));
        assert(dval(ds, acc) == acc);
    } else {
        assert(ds.push(c)[0] == ds[0]);
        assert(ds.push(c).drop_first() =~= ds.drop_first().push(c));
        lemma_dval_append(ds.drop_first(), c, acc * 10 + digit_val(ds[0]));
        assert(dval(ds.push(c), acc) == dval(ds.drop_first().push(c), acc * 10 + digit_val(
            ds[0],
        )));
        assert(dval(ds, acc) == dval(ds.drop_first(), acc * 10 + digit_val(ds[0])));
    }
}

proof fn lemma_dval_udigits(n: int)
    requires
        n >= 0,
    ensures
        dval(udigits(n), 0) == n,
    decreases n,
{
    if n < 10 {
        assert(udigits(n)[0] == digit_char(n));
        assert(udigits(n).drop_first() =~= Seq::<char>::empty());
        assert(digit_val(digit_char(n)) == n);
        assert(dval(Seq::<char>::empty(), digit_val(digit_char(n))) == digit_val(digit_char(n)));
    } else {
        lemma_dval_udigits(n / 10);
        assert(udigits(n) =~= udigits(n / 10).push(digit_char(n % 10)));
        lemma_dval_append(udigits(n / 10), digit_char(n % 10), 0);
        assert(digit_val(digit_char(n % 10)) == n % 10);
    }
}

proof fn lemma_parse_int(n: int, rest: Seq<char>)
    requires
        i64::MIN as int <= n && n <= i64::MAX as int,
        rest.len() == 0 || !is_digit(rest[0]),
    ensures
        p_int(int_chars(n) + rest) == Some((n, rest)),
{
    let s = int_chars(n) + rest;
    if n < 0 {
        lemma_udigits_digits(-n);
        lemma_p_digits_all(udigits(-n), rest, 0);
        lemma_dval_udigits(-n);
        assert(s[0] == '-');
        assert(s[1] == udigits(-n)[0]);
        assert(is_digit(s[1]));
        assert(s.drop_first() =~= udigits(-n) + rest);
    } else {
        lemma_udigits_digits(n);
        lemma_p_digits_all(udigits(n), rest, 0);
        lemma_dval_udigits(n);
        assert(s =~= udigits(n) + rest);
        assert(s[0] == udigits(n)[0]);
        assert(is_digit(s[0]));
    }
}

proof fn lemma_parse_str_body(s: Seq<char>, rest: Seq<char>)
    ensures
        p_str_body(esc(s) + (seq!['"'] + rest)) == Some((s, rest)),
    decreases s.len(),
{
    let t = esc(s) + (seq!['"'] + rest);
    if s.len() == 0 {
        assert(esc(s) =~= Seq::<char>::empty());
        assert(t =~= seq!['"'] + rest);
        assert(t[0] == '"');
        assert(t.drop_first() =~= rest);
    } else {
        let c = s[0];
        lemma_parse_str_body(s.drop_first(), rest);
        let inner = esc(s.drop_first()) + (seq!['"'] + rest);
        if c == '"' || c == '\\' || c == '\n' || c == '\r' || c == '\t' {
            assert(esc_char(c).len() == 2 && esc_char(c)[0] == '\\');
            assert(t[0] == '\\');
            assert(t[1] == esc_char(c)[1]);
            assert(unesc_char(t[1]) == Some(c));
            assert(t.skip(2) =~= inner);
            assert(seq![c] + s.drop_first() =~= s);
        } else {
            assert(esc_char(c) =~= seq![c]);
            assert(t[0] == c);
            assert(t.drop_first() =~= inner);
            assert(seq![c] + s.drop_first() =~= s);
        }
    }
}

proof fn lemma_ren_shape(j: JsonV)
    requires
        jv_wf(j),
    ensures
        ren(j).len() >= 1,
        !is_ws(ren(j)[0]),
        ren(j)[0] != ']' && ren(j)[0] != '}' && ren(j)[0] != ',',
    decreases j,
{
    match j {
        JsonV::Int(n) => {
            if n >= 0 {
                lemma_udigits_digits(n);
                assert(is_digit(udigits(n)[0]));
                assert(ren(j)[0] == udigits(n)[0]);
            } else {
                lemma_udigits_digits(-n);
                assert(ren(j)[0] == '-');
            }
        }
        _ => {}
    }
}

/// Appending more text after a rendered value does not change how the value
/// parses: the parser consumes exactly the rendering and returns the rest.
pub proof fn lemma_parse_ren(j: JsonV, rest: Seq<char>)
    requires
        jv_wf(j),
        rest.len() == 0 || !is_digit(rest[0]),
    ensures
        p_val(ren(j) + rest) == Some((j, rest)),
    decreases j,
{
    let s = ren(j) + rest;
    lemma_ren_shape(j);
    assert(s[0] == ren(j)[0]);
    lemma_skip_ws_noop(s);
    match j {
        JsonV::Null => {
            assert(s[0] == 'n' && s[1] == 'u' && s[2] == 'l' && s[3] == 'l');
            assert(s.skip(4) =~= rest);
        }
        JsonV::Bool(b) => {
            if b {
                assert(s[0] == 't' && s[1] == 'r' && s[2] == 'u' && s[3] == 'e');
                assert(s.skip(4) =~= rest);
            } else {
                assert(s[0] == 'f' && s[1] == 'a' && s[2] == 'l' && s[3] == 's' && s[4] == 'e');
                assert(s.skip(5) =~= rest);
            }
        }
        JsonV::Int(n) => {
            lemma_parse_int(n, rest);
            assert(int_chars(n) + rest =~= s);
            assert(!is_digit('n') && !is_digit('t') && !is_digit('f'));
        }
        JsonV::Str(sc) => {
            assert(s[0] == '"');
            lemma_parse_str_body(sc, rest);
            assert(s.drop_first() =~= esc(sc) + (seq!['"'] + rest));
        }
        JsonV::Arr(items) => {
            assert(s[0] == '[');
            let u0 = s.drop_first();
            assert(u0 =~= ren_items(items) + (seq![']'] + rest));
            if items.len() == 0 {
                assert(ren_items(items) =~= Seq::<char>::empty());
                assert(u0 =~= seq![']'] + rest);
                lemma_skip_ws_noop(u0);
                assert(u0[0] == ']');
                assert(u0.drop_first() =~= rest);
                assert(items =~= Seq::<JsonV>::empty());
            } else {
                assert(jv_wf(items[0]));
                lemma_ren_shape(items[0]);
                assert(u0[0] == ren(items[0])[0]);
                lemma_skip_ws_noop(u0);
                lemma_parse_ren_items(items, rest);
            }
        }
        JsonV::Obj(entries) => {
            assert(s[0] == '{');
            let u0 = s.drop_first();
            assert(u0 =~= ren_entries(entries) + (seq!['}'] + rest));
            if entries.len() == 0 {
                assert(ren_entries(entries) =~= Seq::<char>::empty());
                assert(u0 =~= seq!['}'] + rest);
                lemma_skip_ws_noop(u0);
                assert(u0[0] == '}');
                assert(u0.drop_first() =~= rest);
                assert(entries =~= Seq::<(Seq<char>, JsonV)>::empty());
            } else {
                assert(u0[0] == '"');
                lemma_skip_ws_noop(u0);
                lemma_parse_ren_entries(entries, rest);
            }
        }
    }
}

proof fn lemma_parse_ren_items(items: Seq<JsonV>, rest: Seq<char>)
    requires
        items.len() >= 1,
        forall|i: int| 0 <= i < items.len() ==> jv_wf(#[trigger] items[i]),
    ensures
        p_items(ren_items(items) + (seq![']'] + rest)) == Some((items, rest)),
    decreases items,
{
    let s = ren_items(items) + (seq![']'] + rest);
    assert(jv_wf(items[0]));
    lemma_ren_shape(items[0]);
    if items.len() == 1 {
        assert((seq![']'] + rest)[0] == ']' && !is_digit(']'));
        lemma_parse_ren(items[0], seq![']'] + rest);
        assert(ren(items[0]) + (seq![']'] + rest) =~= s);
        lemma_skip_ws_noop(seq![']'] + rest);
        assert((seq![']'] + rest)[0] == ']');
        assert((seq![']'] + rest).drop_first() =~= rest);
        assert(seq![items[0]] =~= items);
    } else {
        let tail = items.drop_first();
        let rest1 = seq![','] + (ren_items(tail) + (seq![']'] + rest));
        assert(rest1[0] == ',' && !is_digit(','));
        lemma_parse_ren(items[0], rest1);
        assert(ren(items[0]) + rest1 =~= s);
        lemma_skip_ws_noop(rest1);
        assert(rest1[0] == ',');
        assert(rest1.drop_first() =~= ren_items(tail) + (seq![']'] + rest));
        assert forall|i: int| 0 <= i < tail.len() implies jv_wf(#[trigger] tail[i]) by {
            assert(tail[i] == items[i + 1]);
        }
        lemma_parse_ren_items(tail, rest);
        assert(seq![items[0]] + tail =~= items);
    }
}

proof fn lemma_parse_ren_entries(entries: Seq<(Seq<char>, JsonV)>, rest: Seq<char>)
    requires
        entries.len() >= 1,
        forall|i: int| 0 <= i < entries.len() ==> jv_wf((#[trigger] entries[i]).1),
    ensures
        p_entries(ren_entries(entries) + (seq!['}'] + rest)) == Some((entries, rest)),
    decreases entries,
{
    let s = ren_entries(entries) + (seq!['}'] + rest);
    let k = entries[0].0;
    let v = entries[0].1;
    assert(jv_wf(v));
    lemma_ren_shape(v);
    assert(s[0] == '"');
    lemma_skip_ws_noop(s);
    let after_val = if entries.len() == 1 {
        seq!['}'] + rest
    } else {
        seq![','] + (ren_entries(entries.drop_first()) + (seq!['}'] + rest))
    };
    let after_key = seq![':'] + (ren(v) + after_val);
    assert(s.drop_first() =~= esc(k) + (seq!['"'] + after_key));
    lemma_parse_str_body(k, after_key);
    lemma_skip_ws_noop(after_key);
    assert(after_key[0] == ':');
    assert(after_key.drop_first() =~= ren(v) + after_val);
    assert(after_val[0] == '}' || after_val[0] == ',');
    assert(!is_digit(after_val[0]));
    lemma_parse_ren(v, after_val);
    lemma_skip_ws_noop(after_val);
    if entries.len() == 1 {
        assert(after_val[0] == '}');
        assert(after_val.drop_first() =~= rest);
        assert(seq![(k, v)] =~= entries);
    } else {
        let tail = entries.drop_first();
        assert(after_val[0] == ',');
        assert(after_val.drop_first() =~= ren_entries(tail) + (seq!['}'] + rest));
        assert forall|i: int| 0 <= i < tail.len() implies jv_wf((#[trigger] tail[i]).1) by {
            assert(tail[i] == entries[i + 1]);
        }
        lemma_parse_ren_entries(tail, rest);
        assert(seq![(k, v)] + tail =~= entries);
    }
}

proof fn lemma_skip_ws_noop(s: Seq<char>)
    requires
        s.len() == 0 || !is_ws(s[0]),
    ensures
        skip_ws(s) == s,
{
}

/// The parser inverts the renderer: rendering any representable value and
/// parsing the text back yields exactly that value.
pub proof fn lemma_parse_render(j: JsonV)
    requires
        jv_wf(j),
    ensures
        parse_json_spec(ren(j)) == Some(j),
{
    lemma_parse_ren(j, Seq::empty());
    assert(ren(j) + Seq::<char>::empty() =~= ren(j));
    assert(skip_ws(Seq::<char>::empty()).len() == 0);
}

/// No newline anywhere in a sequence.
pub open spec fn no_nl(s: Seq<char>) -> bool {
    forall|i: int| 0 <= i < s.len() ==> s[i] != '\n'
}

proof fn lemma_esc_no_nl(s: Seq<char>)
    ensures
        no_nl(esc(s)),
    decreases s.len(),
{
    if s.len() > 0 {
        lemma_esc_no_nl(s.drop_first());
        let hd = esc_char(s[0]);
        assert forall|i: int| 0 <= i < esc(s).len() implies esc(s)[i] != '\n' by {
            if i < hd.len() {
                assert(esc(s)[i] == hd[i]);
            } else {
                assert(esc(s)[i] == esc(s.drop_first())[i - hd.len()]);
            }
        }
    }
}

proof fn lemma_udigits_no_nl(n: int)
    requires
        n >= 0,
    ensures
        no_nl(udigits(n)),
{
    lemma_udigits_digits(n);
    assert forall|i: int| 0 <= i < udigits(n).len() implies udigits(n)[i] != '\n' by {
        assert(is_digit(udigits(n)[i]));
    }
}

/// The renderer writes everything onto one line: a newline in a string is
/// escaped, so the output never holds a raw newline.
pub proof fn lemma_ren_no_nl(j: JsonV)
    ensures
        no_nl(ren(j)),
    decreases j,
{
    match j {
        JsonV::Null => {}
        JsonV::Bool(_) => {}
        JsonV::Int(n) => {
            if n >= 0 {
                lemma_udigits_no_nl(n);
            } else {
                lemma_udigits_no_nl(-n);
                assert forall|i: int| 0 <= i < ren(j).len() implies ren(j)[i] != '\n' by {
                    if i > 0 {
                        assert(ren(j)[i] == udigits(-n)[i - 1]);
                    }
                }
            }
        }
        JsonV::Str(s) => {
            lemma_esc_no_nl(s);
            assert forall|i: int| 0 <= i < ren(j).len() implies ren(j)[i] != '\n' by {
                if 1 <= i < 1 + esc(s).len() {
                    assert(ren(j)[i] == esc(s)[i - 1]);
                }
            }
        }
        JsonV::Arr(items) => {
            lemma_ren_items_no_nl(items);
            assert forall|i: int| 0 <= i < ren(j).len() implies ren(j)[i] != '\n' by {
                if 1 <= i < 1 + ren_items(items).len() {
                    assert(ren(j)[i] == ren_items(items)[i - 1]);
                }
            }
        }
        JsonV::Obj(entries) => {
            lemma_ren_entries_no_nl(entries);
            assert forall|i: int| 0 <= i < ren(j).len() implies ren(j)[i] != '\n' by {
                if 1 <= i < 1 + ren_entries(entries).len() {
                    assert(ren(j)[i] == ren_entries(entries)[i - 1]);
                }
            }
        }
    }
}

proof fn lemma_ren_items_no_nl(items: Seq<JsonV>)
    ensures
        no_nl(ren_items(items)),
    decreases items,
{
    if items.len() == 1 {
        lemma_ren_no_nl(items[0]);
    } else if items.len() > 1 {
        lemma_ren_no_nl(items[0]);
        lemma_ren_items_no_nl(items.drop_first());
        let hd = ren(items[0]);
        let tl = ren_items(items.drop_first());
        assert forall|i: int| 0 <= i < ren_items(items).len() implies ren_items(items)[i] != '\n' by {
            if i < hd.len() {
                assert(ren_items(items)[i] == hd[i]);
            } else if i == hd.len() {
                assert(ren_items(items)[i] == ',');
            } else {
                assert(ren_items(items)[i] == tl[i - hd.len() - 1]);
            }
        }
    }
}

proof fn lemma_ren_entries_no_nl(entries: Seq<(Seq<char>, JsonV)>)
    ensures
        no_nl(ren_entries(entries)),
    decreases entries,
{
    if entries.len() > 0 {
        lemma_ren_no_nl(entries[0].1);
        lemma_esc_no_nl(entries[0].0);
        let head = seq!['"'] + esc(entries[0].0) + seq!['"', ':'] + ren(entries[0].1);
        assert forall|i: int| 0 <= i < head.len() implies head[i] != '\n' by {
            let ek = esc(entries[0].0);
            if i == 0 {
                assert(head[i] == '"');
            } else if i < 1 + ek.len() {
                assert(head[i] == ek[i - 1]);
            } else if i == 1 + ek.len() {
                assert(head[i] == '"');
            } else if i == 2 + ek.len() {
                assert(head[i] == ':');
            } else {
                assert(head[i] == ren(entries[0].1)[i - ek.len() - 3]);
            }
        }
        if entries.len() == 1 {
            assert(ren_entries(entries) == head);
        } else {
            lemma_ren_entries_no_nl(entries.drop_first());
            let tl = ren_entries(entries.drop_first());
            assert forall|i: int| 0 <= i < ren_entries(entries).len() implies ren_entries(entries)[i]
                != '\n' by {
                if i < head.len() {
                    assert(ren_entries(entries)[i] == head[i]);
                } else if i == head.len() {
                    assert(ren_entries(entries)[i] == ',');
                } else {
                    assert(ren_entries(entries)[i] == tl[i - head.len() - 1]);
                }
            }
        }
    }
}

} // verus!
