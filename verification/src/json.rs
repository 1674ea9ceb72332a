//! A plain model of parsed JSON documents.
//!
//! Benchmark executables and per-commit export files speak JSON. The
//! documents are parsed by `serde_json` behind a single trusted wrapper;
//! everything read out of a parsed document afterwards is verified code over
//! the [`JsonVal`] enum. Numbers are truncated toward zero to integers when
//! the document is parsed, which is all the measurement logic ever reads of
//! them.

use serde_json::Value;
use vstd::prelude::*;

verus! {

broadcast use vstd::std_specs::vec::axiom_vec_decreases_to_view, vstd::seq::axiom_seq_index_decreases;

/// A parsed JSON value with numbers truncated to integers.
pub enum JsonVal {
    Null,
    Bool(bool),
    Num(i64),
    Str(String),
    Arr(Vec<JsonVal>),
    Obj(Vec<(String, JsonVal)>),
}

/// The mathematical value of a [`JsonVal`].
pub ghost enum JsonData {
    Null,
    Bool(bool),
    Num(int),
    Str(Seq<char>),
    Arr(Seq<JsonData>),
    Obj(Seq<(Seq<char>, JsonData)>),
}

/// The view of a [`JsonVal`], taken recursively.
pub open spec fn json_view(v: JsonVal) -> JsonData
    decreases v,
{
    match v {
        JsonVal::Null => JsonData::Null,
        JsonVal::Bool(b) => JsonData::Bool(b),
        JsonVal::Num(n) => JsonData::Num(n as int),
        JsonVal::Str(s) => JsonData::Str(s@),
        JsonVal::Arr(a) => JsonData::Arr(json_view_seq(a@)),
        JsonVal::Obj(o) => JsonData::Obj(json_view_pairs(o@)),
    }
}

/// The views of the elements of a JSON array.
pub open spec fn json_view_seq(s: Seq<JsonVal>) -> Seq<JsonData>
    decreases s,
{
    Seq::new(
        s.len(),
        |i: int|
            if 0 <= i < s.len() {
                json_view(s[i])
            } else {
                JsonData::Null
            },
    )
}

/// The views of the key/value pairs of a JSON object.
pub open spec fn json_view_pairs(p: Seq<(String, JsonVal)>) -> Seq<(Seq<char>, JsonData)>
    decreases p,
{
    Seq::new(
        p.len(),
        |i: int|
            if 0 <= i < p.len() {
                (p[i].0@, json_view(p[i].1))
            } else {
                (Seq::empty(), JsonData::Null)
            },
    )
}

impl View for JsonVal {
    type V = JsonData;

    open spec fn view(&self) -> JsonData {
        json_view(*self)
    }
}

/// What `serde_json` parses a document to: `None` when the text is not valid
/// JSON, otherwise the parsed value with numbers truncated. The result is a
/// function of the text alone.
pub uninterp spec fn json_of(s: Seq<char>) -> Option<JsonData>;

#[verifier::external_type_specification]
#[verifier::external_body]
pub struct ExJsonValue(serde_json::Value);

/// Recursion helper of [`json_parse`]: maps each `serde_json::Value` variant
/// onto the corresponding [`JsonVal`] variant, truncating numbers toward
/// zero.
#[verifier::external_body]
fn json_convert(v: &serde_json::Value) -> Option<JsonVal> {
    match v {
        Value::Null => Some(JsonVal::Null),
        Value::Bool(b) => Some(JsonVal::Bool(*b)),
        Value::Number(n) => n.as_i64().or_else(|| n.as_f64().map(|x| x as i64)).map(JsonVal::Num),
        Value::String(s) => Some(JsonVal::Str(s.clone())),
        Value::Array(a) => a.iter().map(json_convert).collect::<Option<_>>().map(JsonVal::Arr),
        Value::Object(m) => m.iter().map(
            |(k, x)| Some((k.clone(), json_convert(x)?)),
        ).collect::<Option<_>>().map(JsonVal::Obj),
    }
}

/// Relies on `serde_json::from_str`: whether a document parses, and the value
/// it parses to, depend on the text alone.
#[verifier::external_body]
pub(crate) fn json_parse(s: &str) -> (r: Option<JsonVal>)
    ensures
        r is Some <==> json_of(s@) is Some,
        r is Some ==> r.unwrap()@ == json_of(s@).unwrap(),
{
    serde_json::from_str::<serde_json::Value>(s).ok().and_then(|v| json_convert(&v))
}

/// The value under `key` in an object: the first pair carrying that key.
pub open spec fn obj_lookup(pairs: Seq<(Seq<char>, JsonData)>, key: Seq<char>) -> Option<JsonData>
    decreases pairs.len(),
{
    if pairs.len() == 0 {
        None
    } else if pairs[0].0 == key {
        Some(pairs[0].1)
    } else {
        obj_lookup(pairs.drop_first(), key)
    }
}

/// The value a document holds under `key`: `None` unless the document is an
/// object with that key.
pub open spec fn json_lookup(j: JsonData, key: Seq<char>) -> Option<JsonData> {
    match j {
        JsonData::Obj(pairs) => obj_lookup(pairs, key),
        _ => None,
    }
}

pub proof fn lemma_obj_lookup_found(pairs: Seq<(Seq<char>, JsonData)>, key: Seq<char>, i: int)
    requires
        0 <= i < pairs.len(),
        pairs[i].0 == key,
        forall|j: int| 0 <= j < i ==> pairs[j].0 != key,
    ensures
        obj_lookup(pairs, key) == Some(pairs[i].1),
    decreases i,
{
    if i > 0 {
        lemma_obj_lookup_found(pairs.drop_first(), key, i - 1);
    }
}

pub proof fn lemma_obj_lookup_missing(pairs: Seq<(Seq<char>, JsonData)>, key: Seq<char>)
    requires
        forall|j: int| 0 <= j < pairs.len() ==> pairs[j].0 != key,
    ensures
        obj_lookup(pairs, key) is None,
    decreases pairs.len(),
{
    if pairs.len() > 0 {
        lemma_obj_lookup_missing(pairs.drop_first(), key);
    }
}

impl JsonVal {
    /// Looks a key up in an object document.
    pub fn get<'a>(&'a self, key: &str) -> (r: Option<&'a JsonVal>)
        ensures
            r is Some <==> json_lookup(self@, key@) is Some,
            r is Some ==> r.unwrap()@ == json_lookup(self@, key@).unwrap(),
    {
        match self {
            JsonVal::Obj(pairs) => {
                let ghost model = json_view_pairs(pairs@);
                proof {
                    assert(*self == JsonVal::Obj(*pairs));
                    assert(self@ == JsonData::Obj(model));
                }
                let n = pairs.len();
                let mut i: usize = 0;
                while i < n
                    invariant
                        0 <= i <= n,
                        n == pairs.len(),
                        self@ == JsonData::Obj(model),
                        model == json_view_pairs(pairs@),
                        forall|j: int| 0 <= j < i ==> model[j].0 != key@,
                    decreases n - i,
                {
                    if crate::text::str_eq(pairs[i].0.as_str(), key) {
                        proof {
                            assert(model[i as int] == (
                                pairs@[i as int].0@,
                                json_view(pairs@[i as int].1),
                            ));
                            lemma_obj_lookup_found(model, key@, i as int);
                            assert(json_lookup(self@, key@) == Some(model[i as int].1));
                        }
                        return Some(&pairs[i].1);
                    }
                    i += 1;
                }
                proof {
                    lemma_obj_lookup_missing(model, key@);
                }
                None
            },
            _ => None,
        }
    }
}

} // verus!
