//! A JSON document as plain values, with the accessors the platform's logic
//! reads it through (`get`, `as_str`, `as_array`, `as_i64`, ...).

use vstd::prelude::*;

verus! {

/// A JSON value. Numbers keep their kind: signed integers, unsigned integers
/// above `i64::MAX`, and other numbers by their text.
#[derive(Debug)]
pub enum Json {
    Null,
    Bool(bool),
    Int(i64),
    UInt(u64),
    Float(String),
    Str(String),
    Array(Vec<Json>),
    Object(Vec<(String, Json)>),
}

/// The abstract value of a JSON document.
#[verifier::ext_equal]
pub enum JsonV {
    Null,
    Bool(bool),
    Int(i64),
    UInt(u64),
    Float(Seq<char>),
    Str(Seq<char>),
    Array(Seq<JsonV>),
    Object(Seq<(Seq<char>, JsonV)>),
}

/// The abstract value of a JSON document.
pub open spec fn json_view(j: Json) -> JsonV
    decreases j,
{
    match j {
        Json::Null => JsonV::Null,
        Json::Bool(b) => JsonV::Bool(b),
        Json::Int(i) => JsonV::Int(i),
        Json::UInt(u) => JsonV::UInt(u),
        Json::Float(t) => JsonV::Float(t@),
        Json::Str(s) => JsonV::Str(s@),
        Json::Array(v) => {
            proof { assert(decreases_to!(v => v@)); }
            JsonV::Array(json_seq_view(v@))
        },
        Json::Object(m) => {
            proof { assert(decreases_to!(m => m@)); }
            JsonV::Object(json_entries_view(m@))
        },
    }
}

/// The abstract values of a sequence of JSON documents.
pub open spec fn json_seq_view(s: Seq<Json>) -> Seq<JsonV>
    decreases s,
{
    if s.len() == 0 {
        Seq::empty()
    } else {
        json_seq_view(s.drop_last()).push(json_view(s.last()))
    }
}

/// The abstract values of an object's entries.
pub open spec fn json_entries_view(s: Seq<(String, Json)>) -> Seq<(Seq<char>, JsonV)>
    decreases s,
{
    if s.len() == 0 {
        Seq::empty()
    } else {
        proof { assert(decreases_to!(s => s.last())); }
        json_entries_view(s.drop_last()).push((s.last().0@, json_view(s.last().1)))
    }
}

impl View for Json {
    type V = JsonV;

    open spec fn view(&self) -> JsonV {
        json_view(*self)
    }
}

/// The elements of an array value are the values of its elements.
pub proof fn lemma_view_array(j: &Json)
    requires
        j is Array,
    ensures
        j@ is Array,
        j@->Array_0.len() == j->Array_0@.len(),
        forall|i: int| 0 <= i < j->Array_0@.len() ==> #[trigger] j@->Array_0[i] == j->Array_0@[i]@,
{
    lemma_seq_view(j->Array_0@);
}

/// The view of a sequence has its length and the views of its elements.
pub proof fn lemma_seq_view(s: Seq<Json>)
    ensures
        json_seq_view(s).len() == s.len(),
        forall|i: int| 0 <= i < s.len() ==> #[trigger] json_seq_view(s)[i] == s[i]@,
    decreases s.len(),
{
    if s.len() > 0 {
        lemma_seq_view(s.drop_last());
        assert forall|i: int| 0 <= i < s.len() implies #[trigger] json_seq_view(s)[i] == s[i]@ by {
            if i < s.len() - 1 {
                assert(json_seq_view(s.drop_last())[i] == s.drop_last()[i]@);
            }
        }
    }
}

/// The view of an object's entries has their length and their views.
pub proof fn lemma_entries_view(s: Seq<(String, Json)>)
    ensures
        json_entries_view(s).len() == s.len(),
        forall|i: int| 0 <= i < s.len() ==> #[trigger] json_entries_view(s)[i] == (s[i].0@, s[i].1@),
    decreases s.len(),
{
    if s.len() > 0 {
        lemma_entries_view(s.drop_last());
        assert forall|i: int| 0 <= i < s.len() implies #[trigger] json_entries_view(s)[i] == (s[i].0@, s[i].1@) by {
            if i < s.len() - 1 {
                assert(json_entries_view(s.drop_last())[i] == (s.drop_last()[i].0@, s.drop_last()[i].1@));
            }
        }
    }
}

/// The entries of an object value are the views of its entries.
pub proof fn lemma_view_object(j: &Json)
    requires
        j is Object,
    ensures
        j@ is Object,
        j@->Object_0.len() == j->Object_0@.len(),
        forall|i: int| 0 <= i < j->Object_0@.len() ==> #[trigger] j@->Object_0[i] == (j->Object_0@[i].0@, j->Object_0@[i].1@),
{
    lemma_entries_view(j->Object_0@);
}

/// The value an object holds under `key` (the first entry with that key).
pub open spec fn obj_lookup(m: Seq<(Seq<char>, JsonV)>, key: Seq<char>) -> Option<JsonV>
    decreases m.len(),
{
    if m.len() == 0 {
        None
    } else if m[0].0 == key {
        Some(m[0].1)
    } else {
        obj_lookup(m.subrange(1, m.len() as int), key)
    }
}

/// `Value::get(key)`: the member `key` of an object; nothing for other values.
pub open spec fn jget(j: JsonV, key: Seq<char>) -> Option<JsonV> {
    match j {
        JsonV::Object(m) => obj_lookup(m, key),
        _ => None,
    }
}

/// `Value::as_str`.
pub open spec fn jstr(j: JsonV) -> Option<Seq<char>> {
    match j {
        JsonV::Str(s) => Some(s),
        _ => None,
    }
}

/// `Value::as_bool`.
pub open spec fn jbool(j: JsonV) -> Option<bool> {
    match j {
        JsonV::Bool(b) => Some(b),
        _ => None,
    }
}

/// `Value::as_array`.
pub open spec fn jarr(j: JsonV) -> Option<Seq<JsonV>> {
    match j {
        JsonV::Array(a) => Some(a),
        _ => None,
    }
}

/// `Value::as_i64`: integers that fit an `i64`.
pub open spec fn ji64(j: JsonV) -> Option<i64> {
    match j {
        JsonV::Int(i) => Some(i),
        JsonV::UInt(u) => if u <= i64::MAX as u64 { Some(u as i64) } else { None },
        _ => None,
    }
}

/// `Value::as_u64`: integers that fit a `u64`.
pub open spec fn ju64(j: JsonV) -> Option<u64> {
    match j {
        JsonV::Int(i) => if i >= 0 { Some(i as u64) } else { None },
        JsonV::UInt(u) => Some(u),
        _ => None,
    }
}

/// The member `key` of `j`, read as a string.
pub open spec fn jget_str(j: JsonV, key: Seq<char>) -> Option<Seq<char>> {
    match jget(j, key) {
        Some(v) => jstr(v),
        None => None,
    }
}

/// The member `key` of `j`, read as an array.
pub open spec fn jget_arr(j: JsonV, key: Seq<char>) -> Option<Seq<JsonV>> {
    match jget(j, key) {
        Some(v) => jarr(v),
        None => None,
    }
}

/// The member `key` of `j`, read as an `i64`.
pub open spec fn jget_i64(j: JsonV, key: Seq<char>) -> Option<i64> {
    match jget(j, key) {
        Some(v) => ji64(v),
        None => None,
    }
}

/// The member `key` of `j`, read as a `u64`.
pub open spec fn jget_u64(j: JsonV, key: Seq<char>) -> Option<u64> {
    match jget(j, key) {
        Some(v) => ju64(v),
        None => None,
    }
}

impl Json {
    /// `Value::get(key)`.
    pub fn get(&self, key: &str) -> (r: Option<&Json>)
        ensures
            r is Some <==> jget(self@, key@) is Some,
            r matches Some(x) ==> jget(self@, key@) == Some(x@),
    {
        match self {
            Json::Object(m) => {
                let k = key.to_string();
                let mut i: usize = 0;
                proof { lemma_view_object(self); }
                let ghost mv = self@->Object_0;
                assert(mv.subrange(0, mv.len() as int) =~= mv);
                while i < m.len()
                    invariant
                        i <= m.len(),
                        self@ == JsonV::Object(mv),
                        mv.len() == m.len(),
                        k@ == key@,
                        forall|j: int| 0 <= j < m.len() ==> #[trigger] mv[j] == (m@[j].0@, m@[j].1@),
                        obj_lookup(mv, key@) == obj_lookup(mv.subrange(i as int, mv.len() as int), key@),
                    decreases m.len() - i,
                {
                    let ghost rest = mv.subrange(i as int, mv.len() as int);
                    assert(rest[0] == mv[i as int]);
                    if m[i].0 == k {
                        assert(mv[i as int] == (m@[i as int].0@, m@[i as int].1@));
                        assert(rest.len() > 0);
                        assert(rest[0].0 == key@);
                        assert(obj_lookup(rest, key@) == Some(rest[0].1));
                        return Some(&m[i].1);
                    }
                    assert(rest.subrange(1, rest.len() as int) =~= mv.subrange(i + 1, mv.len() as int));
                    i += 1;
                }
                None
            }
            _ => None,
        }
    }

    /// `Value::as_str`.
    pub fn as_str(&self) -> (r: Option<&String>)
        ensures
            r is Some <==> jstr(self@) is Some,
            r matches Some(s) ==> jstr(self@) == Some(s@),
    {
        match self {
            Json::Str(s) => Some(s),
            _ => None,
        }
    }

    /// `Value::as_array`.
    pub fn as_array(&self) -> (r: Option<&Vec<Json>>)
        ensures
            r is Some <==> jarr(self@) is Some,
            r matches Some(a) ==> jarr(self@) == Some(a@.map_values(|x: Json| x@)),
    {
        match self {
            Json::Array(a) => {
                proof { lemma_view_array(self); }
                assert(self@->Array_0 =~= a@.map_values(|x: Json| x@));
                Some(a)
            }
            _ => None,
        }
    }

    /// `Value::as_i64`.
    pub fn as_i64(&self) -> (r: Option<i64>)
        ensures
            r == ji64(self@),
    {
        match self {
            Json::Int(i) => Some(*i),
            Json::UInt(u) => if *u <= i64::MAX as u64 { Some(*u as i64) } else { None },
            _ => None,
        }
    }

    /// `Value::as_u64`.
    pub fn as_u64(&self) -> (r: Option<u64>)
        ensures
            r == ju64(self@),
    {
        match self {
            Json::Int(i) => if *i >= 0 { Some(*i as u64) } else { None },
            Json::UInt(u) => Some(*u),
            _ => None,
        }
    }

    /// `Value::as_bool`.
    pub fn as_bool(&self) -> (r: Option<bool>)
        ensures
            r == jbool(self@),
    {
        match self {
            Json::Bool(b) => Some(*b),
            _ => None,
        }
    }

    /// `Value::is_null`.
    pub fn is_null(&self) -> (r: bool)
        ensures
            r == (self@ is Null),
    {
        match self {
            Json::Null => true,
            _ => false,
        }
    }

    /// A copy of this value.
    pub fn deep_clone(&self) -> (r: Json)
        ensures
            r@ == self@,
        decreases self,
    {
        match self {
            Json::Null => Json::Null,
            Json::Bool(b) => Json::Bool(*b),
            Json::Int(i) => Json::Int(*i),
            Json::UInt(u) => Json::UInt(*u),
            Json::Float(t) => Json::Float(t.clone()),
            Json::Str(s) => Json::Str(s.clone()),
            Json::Array(a) => {
                let mut out: Vec<Json> = Vec::new();
                let mut i: usize = 0;
                while i < a.len()
                    invariant
                        i <= a.len(),
                        *self == Json::Array(*a),
                        out.len() == i,
                        forall|k: int| 0 <= k < i ==> (#[trigger] out@[k])@ == a@[k]@,
                    decreases a.len() - i,
                {
                    proof { assert(decreases_to!(self => self->Array_0@[i as int])); assert(a@[i as int] == self->Array_0@[i as int]); }
                    let c = a[i].deep_clone();
                    out.push(c);
                    i += 1;
                }
                let r = Json::Array(out);
                proof { lemma_view_array(self); lemma_view_array(&r); }
                assert(r@->Array_0 =~= self@->Array_0);
                r
            }
            Json::Object(m) => {
                let mut out: Vec<(String, Json)> = Vec::new();
                let mut i: usize = 0;
                while i < m.len()
                    invariant
                        i <= m.len(),
                        *self == Json::Object(*m),
                        out.len() == i,
                        forall|k: int| 0 <= k < i ==> (#[trigger] out@[k]).0@ == m@[k].0@ && out@[k].1@ == m@[k].1@,
                    decreases m.len() - i,
                {
                    proof { assert(decreases_to!(self => self->Object_0@[i as int].1)); assert(m@[i as int] == self->Object_0@[i as int]); }
                    let c = m[i].1.deep_clone();
                    out.push((m[i].0.clone(), c));
                    i += 1;
                }
                let r = Json::Object(out);
                proof { lemma_view_object(self); lemma_view_object(&r); }
                assert(r@->Object_0 =~= self@->Object_0);
                r
            }
        }
    }
}

/// The member `key` of `j`, read as a boolean.
pub open spec fn jget_bool(j: JsonV, key: Seq<char>) -> Option<bool> {
    match jget(j, key) {
        Some(v) => jbool(v),
        None => None,
    }
}

/// An object value with these entries.
pub fn jobject(entries: Vec<(String, Json)>) -> (r: Json)
    ensures
        r@ == JsonV::Object(entries@.map_values(|e: (String, Json)| (e.0@, e.1@))),
{
    let r = Json::Object(entries);
    proof { lemma_view_object(&r); }
    assert(r@->Object_0 =~= entries@.map_values(|e: (String, Json)| (e.0@, e.1@)));
    r
}

/// The object `{k1: v1}`.
pub fn jobj1(k1: &str, v1: Json) -> (r: Json)
    ensures
        r@ == JsonV::Object(seq![(k1@, v1@)]),
{
    let mut e: Vec<(String, Json)> = Vec::new();
    e.push((k1.to_string(), v1));
    let ghost ev = e@;
    assert(ev.map_values(|e: (String, Json)| (e.0@, e.1@)) =~= seq![(ev[0].0@, ev[0].1@)]);
    jobject(e)
}

/// The object `{k1: v1, k2: v2}`.
pub fn jobj2(k1: &str, v1: Json, k2: &str, v2: Json) -> (r: Json)
    ensures
        r@ == JsonV::Object(seq![(k1@, v1@), (k2@, v2@)]),
{
    let mut e: Vec<(String, Json)> = Vec::new();
    e.push((k1.to_string(), v1));
    e.push((k2.to_string(), v2));
    let ghost ev = e@;
    assert(ev.map_values(|e: (String, Json)| (e.0@, e.1@)) =~= seq![(ev[0].0@, ev[0].1@), (ev[1].0@, ev[1].1@)]);
    jobject(e)
}

/// The object `{k1: v1, k2: v2, k3: v3}`.
pub fn jobj3(k1: &str, v1: Json, k2: &str, v2: Json, k3: &str, v3: Json) -> (r: Json)
    ensures
        r@ == JsonV::Object(seq![(k1@, v1@), (k2@, v2@), (k3@, v3@)]),
{
    let mut e: Vec<(String, Json)> = Vec::new();
    e.push((k1.to_string(), v1));
    e.push((k2.to_string(), v2));
    e.push((k3.to_string(), v3));
    let ghost ev = e@;
    assert(ev.map_values(|e: (String, Json)| (e.0@, e.1@))
        =~= seq![(ev[0].0@, ev[0].1@), (ev[1].0@, ev[1].1@), (ev[2].0@, ev[2].1@)]);
    jobject(e)
}

/// The object `{k1: v1, k2: v2, k3: v3, k4: v4}`.
pub fn jobj4(k1: &str, v1: Json, k2: &str, v2: Json, k3: &str, v3: Json, k4: &str, v4: Json) -> (r: Json)
    ensures
        r@ == JsonV::Object(seq![(k1@, v1@), (k2@, v2@), (k3@, v3@), (k4@, v4@)]),
{
    let mut e: Vec<(String, Json)> = Vec::new();
    e.push((k1.to_string(), v1));
    e.push((k2.to_string(), v2));
    e.push((k3.to_string(), v3));
    e.push((k4.to_string(), v4));
    let ghost ev = e@;
    assert(ev.map_values(|e: (String, Json)| (e.0@, e.1@))
        =~= seq![(ev[0].0@, ev[0].1@), (ev[1].0@, ev[1].1@), (ev[2].0@, ev[2].1@), (ev[3].0@, ev[3].1@)]);
    jobject(e)
}

/// The empty array.
pub fn jempty_array() -> (r: Json)
    ensures
        r@ == JsonV::Array(Seq::empty()),
{
    let r = Json::Array(Vec::new());
    proof { lemma_view_array(&r); }
    assert(r@->Array_0 =~= Seq::<JsonV>::empty());
    r
}

/// An array value with these elements.
pub fn jarray(items: Vec<Json>) -> (r: Json)
    ensures
        r@ == JsonV::Array(items@.map_values(|x: Json| x@)),
{
    let r = Json::Array(items);
    proof { lemma_view_array(&r); }
    assert(r@->Array_0 =~= items@.map_values(|x: Json| x@));
    r
}

/// A string value.
pub fn jstring(s: &str) -> (r: Json)
    ensures
        r@ == JsonV::Str(s@),
{
    Json::Str(s.to_string())
}

} // verus!
