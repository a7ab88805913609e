//! The status payload's JSON document as plain values. An outside parser
//! turns the raw bytes into a [`JsonVal`] tree; everything that reads the
//! tree is verified.

use vstd::prelude::*;
use vstd::string::*;

verus! {

/// A JSON document. A number that is not a 64-bit integer (a fraction, or
/// one out of range) is kept only as `NonInt`: no field this library reads
/// may hold one. Object entries keep unique keys in the order the parser
/// hands them out.
pub enum JsonVal {
    Null,
    Bool(bool),
    Int(i64),
    NonInt,
    Str(String),
    Arr(Vec<JsonVal>),
    Obj(Vec<(String, JsonVal)>),
}

/// What the outside JSON parser returns for the given bytes: `None` when
/// they are not a well-formed JSON document. The result depends on the
/// bytes alone.
pub uninterp spec fn json_of(b: Seq<u8>) -> Option<JsonVal>;

#[verifier::external_type_specification]
#[verifier::external_body]
pub struct ExJsonValue(serde_json::Value);

/// Relies on serde_json::Value: turns each variant into the matching
/// [`JsonVal`] variant, one arm each; `Number::as_i64` decides `Int`
/// against `NonInt`. The conversion half of [`parse_json_bytes`], which is
/// its only caller.
#[verifier::external_body]
fn json_val_of(v: &serde_json::Value) -> JsonVal {
    match v {
        serde_json::Value::Null => JsonVal::Null,
        serde_json::Value::Bool(b) => JsonVal::Bool(*b),
        serde_json::Value::Number(n) => match n.as_i64() {
            Some(i) => JsonVal::Int(i),
            None => JsonVal::NonInt,
        },
        serde_json::Value::String(s) => JsonVal::Str(s.clone()),
        serde_json::Value::Array(a) => JsonVal::Arr(a.iter().map(json_val_of).collect()),
        serde_json::Value::Object(m) => JsonVal::Obj(
            m.iter().map(|(k, w)| (k.clone(), json_val_of(w))).collect(),
        ),
    }
}

/// Relies on serde_json::from_slice::<Value>: parses the bytes as one JSON
/// document, deterministically (object entries come out of its map in a
/// fixed order), or fails on malformed input.
#[verifier::external_body]
pub fn parse_json_bytes(b: &Vec<u8>) -> (r: Option<JsonVal>)
    ensures
        r == json_of(b@),
{
    serde_json::from_slice::<serde_json::Value>(b.as_slice()).ok().map(|v| json_val_of(&v))
}

/// Character-wise equality of two string slices.
pub fn str_eq(a: &str, b: &str) -> (r: bool)
    ensures
        r == (a@ == b@),
{
    let n = a.unicode_len();
    if n != b.unicode_len() {
        return false;
    }
    let mut i: usize = 0;
    while i < n
        invariant
            n == a@.len(),
            n == b@.len(),
            i <= n,
            forall|j: int| 0 <= j < i ==> a@[j] == b@[j],
        decreases n - i,
    {
        if a.get_char(i) != b.get_char(i) {
            return false;
        }
        i = i + 1;
    }
    proof {
        assert(a@ =~= b@);
    }
    true
}

/// The value under `key` among an object's entries: the first match.
pub open spec fn obj_get(entries: Seq<(String, JsonVal)>, key: Seq<char>) -> Option<JsonVal>
    decreases entries.len(),
{
    if entries.len() == 0 {
        None
    } else if entries[0].0@ == key {
        Some(entries[0].1)
    } else {
        obj_get(entries.skip(1), key)
    }
}

/// Looks `key` up among an object's entries.
pub fn json_obj_get<'a>(entries: &'a Vec<(String, JsonVal)>, key: &str) -> (r: Option<
    &'a JsonVal,
>)
    ensures
        (match r {
            Some(v) => obj_get(entries@, key@) == Some(*v),
            None => obj_get(entries@, key@) is None,
        }),
{
    let mut k: usize = 0;
    proof {
        assert(entries@.skip(0) =~= entries@);
    }
    while k < entries.len()
        invariant
            k <= entries@.len(),
            obj_get(entries@, key@) == obj_get(entries@.skip(k as int), key@),
        decreases entries@.len() - k,
    {
        proof {
            assert(entries@.skip(k as int)[0] == entries@[k as int]);
            assert(entries@.skip(k as int).skip(1) =~= entries@.skip(k as int + 1));
        }
        if str_eq(entries[k].0.as_str(), key) {
            return Some(&entries[k].1);
        }
        k = k + 1;
    }
    proof {
        assert(entries@.skip(entries@.len() as int).len() == 0);
    }
    None
}

} // verus!
