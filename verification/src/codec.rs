//! JSON text through serde_json: the values serde_json parses and prints,
//! carried over to and from the library's own `Json`.

use vstd::prelude::*;
use crate::json::{Json, JsonV, ji64, ju64, lemma_view_array, lemma_view_object};

verus! {

/// A JSON value of serde_json.
#[verifier::external_type_specification]
#[verifier::external_body]
pub struct ExSerdeValue(serde_json::Value);

/// What a `serde_json::Value` holds. An integer is `Int` when it fits an
/// `i64` and `UInt` otherwise; any other number is `Float` of its text.
pub uninterp spec fn serde_view(v: serde_json::Value) -> JsonV;

/// `serde_json::from_str::<Value>`: the value that JSON text parses to.
pub uninterp spec fn spec_json_parse(text: Seq<char>) -> Option<JsonV>;

/// `Value::to_string`: serde_json's compact JSON text of a value.
pub uninterp spec fn spec_json_text(v: JsonV) -> Seq<char>;

/// `Value::Object(entries.collect())`: the object that serde_json's map
/// builds from these entries, in order.
pub uninterp spec fn spec_object_from(entries: Seq<(Seq<char>, JsonV)>) -> JsonV;

/// The kind of a JSON value.
#[derive(PartialEq, Eq, Structural, Clone, Copy, Debug)]
pub enum JsonKind {
    Null,
    Bool,
    Number,
    Str,
    Array,
    Object,
}

/// The variant of a `serde_json::Value`.
#[verifier::external_body]
fn sv_kind(v: &serde_json::Value) -> (r: JsonKind)
    ensures
        r is Null <==> serde_view(*v) is Null,
        r is Bool <==> serde_view(*v) is Bool,
        r is Str <==> serde_view(*v) is Str,
        r is Array <==> serde_view(*v) is Array,
        r is Object <==> serde_view(*v) is Object,
        r is Number <==> (serde_view(*v) is Int || serde_view(*v) is UInt || serde_view(*v) is Float),
        r is Number ==> (serde_view(*v) matches JsonV::UInt(u) ==> u > i64::MAX),
{
    match v {
        serde_json::Value::Null => JsonKind::Null,
        serde_json::Value::Bool(_) => JsonKind::Bool,
        serde_json::Value::Number(_) => JsonKind::Number,
        serde_json::Value::String(_) => JsonKind::Str,
        serde_json::Value::Array(_) => JsonKind::Array,
        serde_json::Value::Object(_) => JsonKind::Object,
    }
}

/// `Value::as_bool`.
#[verifier::external_body]
fn sv_as_bool(v: &serde_json::Value) -> (r: Option<bool>)
    ensures
        r is Some <==> serde_view(*v) is Bool,
        r matches Some(b) ==> serde_view(*v) == JsonV::Bool(b),
{
    v.as_bool()
}

/// `Value::as_i64`: integers that fit an `i64`.
#[verifier::external_body]
fn sv_as_i64(v: &serde_json::Value) -> (r: Option<i64>)
    ensures
        r == ji64(serde_view(*v)),
{
    v.as_i64()
}

/// `Value::as_u64`: integers that fit a `u64`.
#[verifier::external_body]
fn sv_as_u64(v: &serde_json::Value) -> (r: Option<u64>)
    ensures
        r == ju64(serde_view(*v)),
{
    v.as_u64()
}

/// `Value::as_str`, copied out.
#[verifier::external_body]
fn sv_as_str(v: &serde_json::Value) -> (r: Option<String>)
    ensures
        r is Some <==> serde_view(*v) is Str,
        r matches Some(s) ==> serde_view(*v) == JsonV::Str(s@),
{
    v.as_str().map(|s| s.to_string())
}

/// `Value::as_array`, its elements copied out (none for other values).
#[verifier::external_body]
fn sv_array_items(v: &serde_json::Value) -> (r: Vec<serde_json::Value>)
    ensures
        serde_view(*v) is Array ==> r@.map_values(|x: serde_json::Value| serde_view(x)) == serde_view(*v)->Array_0,
{
    v.as_array().cloned().unwrap_or_default()
}

/// `Value::as_object`, its entries copied out in the map's order (none for
/// other values).
#[verifier::external_body]
fn sv_object_entries(v: &serde_json::Value) -> (r: Vec<(String, serde_json::Value)>)
    ensures
        serde_view(*v) is Object ==> r@.map_values(|e: (String, serde_json::Value)| (e.0@, serde_view(e.1)))
            == serde_view(*v)->Object_0,
{
    v.as_object().map(|m| m.iter().map(|(k, x)| (k.clone(), x.clone())).collect()).unwrap_or_default()
}

/// `Value::to_string`: compact JSON text. The text of a number that is not
/// an integer is the text its view holds.
#[verifier::external_body]
fn sv_text(v: &serde_json::Value) -> (r: String)
    ensures
        r@ == spec_json_text(serde_view(*v)),
        serde_view(*v) matches JsonV::Float(t) ==> r@ == t,
{
    v.to_string()
}

/// `serde_json::from_str::<Value>`.
#[verifier::external_body]
fn sv_parse(text: &str) -> (r: Option<serde_json::Value>)
    ensures
        r is Some <==> spec_json_parse(text@) is Some,
        r matches Some(v) ==> spec_json_parse(text@) == Some(serde_view(v)),
{
    serde_json::from_str(text).ok()
}

/// `Value::Null`.
#[verifier::external_body]
fn sv_null() -> (r: serde_json::Value)
    ensures
        serde_view(r) == JsonV::Null,
{
    serde_json::Value::Null
}

/// `Value::Bool(b)`.
#[verifier::external_body]
fn sv_bool(b: bool) -> (r: serde_json::Value)
    ensures
        serde_view(r) == JsonV::Bool(b),
{
    serde_json::Value::Bool(b)
}

/// `Value::from(i)` for an `i64`.
#[verifier::external_body]
fn sv_i64(i: i64) -> (r: serde_json::Value)
    ensures
        serde_view(r) == JsonV::Int(i),
{
    serde_json::Value::from(i)
}

/// `Value::from(u)` for a `u64`.
#[verifier::external_body]
fn sv_u64(u: u64) -> (r: serde_json::Value)
    ensures
        serde_view(r) == (if u <= i64::MAX { JsonV::Int(u as i64) } else { JsonV::UInt(u) }),
{
    serde_json::Value::from(u)
}

/// `Value::String(s)`.
#[verifier::external_body]
fn sv_string(s: String) -> (r: serde_json::Value)
    ensures
        serde_view(r) == JsonV::Str(s@),
{
    serde_json::Value::String(s)
}

/// `Value::Array(items)`.
#[verifier::external_body]
fn sv_array(items: Vec<serde_json::Value>) -> (r: serde_json::Value)
    ensures
        serde_view(r) == JsonV::Array(items@.map_values(|x: serde_json::Value| serde_view(x))),
{
    serde_json::Value::Array(items)
}

/// `Value::Object(entries.into_iter().collect())`.
#[verifier::external_body]
fn sv_object(entries: Vec<(String, serde_json::Value)>) -> (r: serde_json::Value)
    ensures
        serde_view(r) == spec_object_from(entries@.map_values(|e: (String, serde_json::Value)| (e.0@, serde_view(e.1)))),
{
    serde_json::Value::Object(entries.into_iter().collect())
}

/// The serde_json value that `to_serde` builds for a value: integers that
/// fit an `i64` become `Int`, a number given by text becomes what the text
/// parses to (null if it does not parse), and objects are collected into
/// serde_json's map.
pub open spec fn serde_form(j: JsonV) -> JsonV
    decreases j,
{
    match j {
        JsonV::UInt(u) => if u <= i64::MAX { JsonV::Int(u as i64) } else { JsonV::UInt(u) },
        JsonV::Float(t) => match spec_json_parse(t) {
            Some(x) => x,
            None => JsonV::Null,
        },
        JsonV::Array(s) => JsonV::Array(serde_form_seq(s)),
        JsonV::Object(m) => spec_object_from(serde_form_entries(m)),
        _ => j,
    }
}

/// `serde_form` of each element.
pub open spec fn serde_form_seq(s: Seq<JsonV>) -> Seq<JsonV>
    decreases s,
{
    if s.len() == 0 {
        Seq::empty()
    } else {
        serde_form_seq(s.drop_last()).push(serde_form(s.last()))
    }
}

/// `serde_form` of each entry's value.
pub open spec fn serde_form_entries(m: Seq<(Seq<char>, JsonV)>) -> Seq<(Seq<char>, JsonV)>
    decreases m,
{
    if m.len() == 0 {
        Seq::empty()
    } else {
        proof { assert(decreases_to!(m => m.last())); }
        serde_form_entries(m.drop_last()).push((m.last().0, serde_form(m.last().1)))
    }
}

proof fn lemma_serde_form_seq(s: Seq<JsonV>)
    ensures
        serde_form_seq(s).len() == s.len(),
        forall|i: int| 0 <= i < s.len() ==> #[trigger] serde_form_seq(s)[i] == serde_form(s[i]),
    decreases s.len(),
{
    if s.len() > 0 {
        lemma_serde_form_seq(s.drop_last());
        assert forall|i: int| 0 <= i < s.len() implies #[trigger] serde_form_seq(s)[i] == serde_form(s[i]) by {
            if i < s.len() - 1 {
                assert(serde_form_seq(s.drop_last())[i] == serde_form(s.drop_last()[i]));
            }
        }
    }
}

proof fn lemma_serde_form_entries(m: Seq<(Seq<char>, JsonV)>)
    ensures
        serde_form_entries(m).len() == m.len(),
        forall|i: int| 0 <= i < m.len() ==> #[trigger] serde_form_entries(m)[i] == (m[i].0, serde_form(m[i].1)),
    decreases m.len(),
{
    if m.len() > 0 {
        lemma_serde_form_entries(m.drop_last());
        assert forall|i: int| 0 <= i < m.len() implies #[trigger] serde_form_entries(m)[i] == (m[i].0, serde_form(m[i].1)) by {
            if i < m.len() - 1 {
                assert(serde_form_entries(m.drop_last())[i] == (m.drop_last()[i].0, serde_form(m.drop_last()[i].1)));
            }
        }
    }
}

/// The library's `Json` for a serde_json value.
pub fn from_serde(v: &serde_json::Value) -> (r: Json)
    ensures
        r@ == serde_view(*v),
    decreases serde_view(*v),
{
    match sv_kind(v) {
        JsonKind::Null => Json::Null,
        JsonKind::Bool => match sv_as_bool(v) {
            Some(b) => Json::Bool(b),
            None => Json::Null,
        },
        JsonKind::Number => match sv_as_i64(v) {
            Some(i) => Json::Int(i),
            None => match sv_as_u64(v) {
                Some(u) => Json::UInt(u),
                None => Json::Float(sv_text(v)),
            },
        },
        JsonKind::Str => match sv_as_str(v) {
            Some(s) => Json::Str(s),
            None => Json::Null,
        },
        JsonKind::Array => {
            let items = sv_array_items(v);
            let ghost sv = serde_view(*v)->Array_0;
            assert(items@.len() == sv.len() && forall|k: int| 0 <= k < sv.len() ==> serde_view(#[trigger] items@[k]) == sv[k]) by {
                assert(items@.map_values(|x: serde_json::Value| serde_view(x)).len() == sv.len());
                assert forall|k: int| 0 <= k < sv.len() implies serde_view(#[trigger] items@[k]) == sv[k] by {
                    assert(items@.map_values(|x: serde_json::Value| serde_view(x))[k] == serde_view(items@[k]));
                }
            }
            let mut out: Vec<Json> = Vec::new();
            let mut i: usize = 0;
            while i < items.len()
                invariant
                    i <= items.len(),
                    serde_view(*v) is Array,
                    sv == serde_view(*v)->Array_0,
                    items@.len() == sv.len(),
                    forall|k: int| 0 <= k < sv.len() ==> serde_view(#[trigger] items@[k]) == sv[k],
                    out.len() == i,
                    forall|k: int| 0 <= k < i ==> (#[trigger] out@[k])@ == sv[k],
                decreases items.len() - i,
            {
                proof {
                    assert(serde_view(items@[i as int]) == sv[i as int]);
                    assert(decreases_to!(serde_view(*v) => serde_view(*v)->Array_0));
                    assert(decreases_to!(sv => sv[i as int]));
                }
                let c = from_serde(&items[i]);
                out.push(c);
                i += 1;
            }
            let r = Json::Array(out);
            proof { lemma_view_array(&r); }
            assert(r@->Array_0 =~= sv);
            r
        }
        JsonKind::Object => {
            let entries = sv_object_entries(v);
            let ghost sm = serde_view(*v)->Object_0;
            assert(entries@.len() == sm.len() && forall|k: int| 0 <= k < sm.len() ==>
                (#[trigger] entries@[k]).0@ == sm[k].0 && serde_view(entries@[k].1) == sm[k].1) by {
                let mv = entries@.map_values(|e: (String, serde_json::Value)| (e.0@, serde_view(e.1)));
                assert(mv.len() == sm.len());
                assert forall|k: int| 0 <= k < sm.len() implies
                    (#[trigger] entries@[k]).0@ == sm[k].0 && serde_view(entries@[k].1) == sm[k].1 by {
                    assert(mv[k] == (entries@[k].0@, serde_view(entries@[k].1)));
                }
            }
            let mut out: Vec<(String, Json)> = Vec::new();
            let mut i: usize = 0;
            while i < entries.len()
                invariant
                    i <= entries.len(),
                    serde_view(*v) is Object,
                    sm == serde_view(*v)->Object_0,
                    entries@.len() == sm.len(),
                    forall|k: int| 0 <= k < sm.len() ==>
                        (#[trigger] entries@[k]).0@ == sm[k].0 && serde_view(entries@[k].1) == sm[k].1,
                    out.len() == i,
                    forall|k: int| 0 <= k < i ==> (#[trigger] out@[k]).0@ == sm[k].0 && out@[k].1@ == sm[k].1,
                decreases entries.len() - i,
            {
                proof {
                    assert(serde_view(entries@[i as int].1) == sm[i as int].1);
                    assert(decreases_to!(serde_view(*v) => serde_view(*v)->Object_0));
                    assert(decreases_to!(sm => sm[i as int]));
                    assert(decreases_to!(sm[i as int] => sm[i as int].1));
                }
                let c = from_serde(&entries[i].1);
                out.push((entries[i].0.clone(), c));
                i += 1;
            }
            let r = Json::Object(out);
            proof { lemma_view_object(&r); }
            assert(r@->Object_0 =~= sm);
            r
        }
    }
}

/// The serde_json value for a `Json`.
pub fn to_serde(j: &Json) -> (r: serde_json::Value)
    ensures
        serde_view(r) == serde_form(j@),
    decreases j,
{
    match j {
        Json::Null => sv_null(),
        Json::Bool(b) => sv_bool(*b),
        Json::Int(i) => sv_i64(*i),
        Json::UInt(u) => sv_u64(*u),
        Json::Float(t) => match sv_parse(t.as_str()) {
            Some(x) => x,
            None => sv_null(),
        },
        Json::Str(s) => sv_string(s.clone()),
        Json::Array(a) => {
            let mut out: Vec<serde_json::Value> = Vec::new();
            let mut i: usize = 0;
            proof { lemma_view_array(j); }
            while i < a.len()
                invariant
                    i <= a.len(),
                    *j == Json::Array(*a),
                    out.len() == i,
                    forall|k: int| 0 <= k < i ==> serde_view(#[trigger] out@[k]) == serde_form(a@[k]@),
                decreases a.len() - i,
            {
                proof { assert(decreases_to!(j => j->Array_0@[i as int])); assert(a@[i as int] == j->Array_0@[i as int]); }
                let c = to_serde(&a[i]);
                out.push(c);
                i += 1;
            }
            proof {
                lemma_view_array(j);
                lemma_serde_form_seq(j@->Array_0);
                assert(out@.map_values(|x: serde_json::Value| serde_view(x)) =~= serde_form_seq(j@->Array_0));
            }
            sv_array(out)
        }
        Json::Object(m) => {
            let mut out: Vec<(String, serde_json::Value)> = Vec::new();
            let mut i: usize = 0;
            while i < m.len()
                invariant
                    i <= m.len(),
                    *j == Json::Object(*m),
                    out.len() == i,
                    forall|k: int| 0 <= k < i ==> (#[trigger] out@[k]).0@ == m@[k].0@
                        && serde_view(out@[k].1) == serde_form(m@[k].1@),
                decreases m.len() - i,
            {
                proof { assert(decreases_to!(j => j->Object_0@[i as int].1)); assert(m@[i as int] == j->Object_0@[i as int]); }
                let c = to_serde(&m[i].1);
                out.push((m[i].0.clone(), c));
                i += 1;
            }
            proof {
                lemma_view_object(j);
                lemma_serde_form_entries(j@->Object_0);
                assert(out@.map_values(|e: (String, serde_json::Value)| (e.0@, serde_view(e.1)))
                    =~= serde_form_entries(j@->Object_0));
            }
            sv_object(out)
        }
    }
}

/// Parse JSON text: `None` when serde_json refuses it.
pub fn parse_json(text: &str) -> (r: Option<Json>)
    ensures
        r is Some <==> spec_json_parse(text@) is Some,
        r matches Some(j) ==> spec_json_parse(text@) == Some(j@),
{
    match sv_parse(text) {
        Some(v) => Some(from_serde(&v)),
        None => None,
    }
}

/// The compact JSON text serde_json prints for a value.
pub fn json_text(j: &Json) -> (r: String)
    ensures
        r@ == spec_json_text(serde_form(j@)),
{
    let v = to_serde(j);
    sv_text(&v)
}

} // verus!
