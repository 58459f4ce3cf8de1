//! A plain JSON tree, and the trusted boundary that produces one.
//!
//! The decoder in this crate works on [`JsonValue`], a tree of plain
//! values that Verus can reason about.  Producing such a tree from raw
//! bytes is delegated to serde_json behind two trusted wrappers; every
//! step after that boundary is verified.

use vstd::prelude::*;

verus! {

/// One JSON document as a tree of plain values.
///
/// A number is carried as its textual form: no part of this library reads
/// numeric fields, so nothing is lost, and no floating point enters the
/// verified code.  An object is a list of key/value pairs as serde_json's
/// map iterates them: in sorted key order, with the last value kept for a
/// duplicated key, so the keys are unique.  No contract here relies on
/// that order.
pub enum JsonValue {
    Null,
    Bool(bool),
    Number(String),
    Str(String),
    Array(Vec<JsonValue>),
    Object(Vec<(String, JsonValue)>),
}

#[verifier::external_type_specification]
#[verifier::external_body]
pub struct ExValue(serde_json::Value);

/// Relies on serde_json::Value: each variant of the parsed document is
/// carried over to the library's own tree, field for field; numbers keep
/// their textual form.
#[verifier::external_body]
fn json_tree(v: serde_json::Value) -> JsonValue {
    match v {
        serde_json::Value::Null => JsonValue::Null,
        serde_json::Value::Bool(b) => JsonValue::Bool(b),
        serde_json::Value::Number(n) => JsonValue::Number(n.to_string()),
        serde_json::Value::String(s) => JsonValue::Str(s),
        serde_json::Value::Array(a) => JsonValue::Array(a.into_iter().map(json_tree).collect()),
        serde_json::Value::Object(o) => {
            JsonValue::Object(o.into_iter().map(|(k, x)| (k, json_tree(x))).collect())
        },
    }
}

/// What parsing a byte sequence yields: the JSON tree it denotes, or the
/// message of the parse error.  The outcome depends on the bytes alone.
pub uninterp spec fn parsed_doc(bytes: Seq<u8>) -> Result<JsonValue, Seq<char>>;

/// Relies on serde_json::from_slice: the bytes parse to one JSON document,
/// or to an error whose message names the position of the fault; the
/// outcome is deterministic in the bytes (the default map keeps the last
/// value of a duplicated key, in sorted key order).
#[verifier::external_body]
pub(crate) fn parse_json(bytes: &[u8]) -> (r: Result<JsonValue, String>)
    ensures
        match r {
            Ok(j) => parsed_doc(bytes@) == Ok::<JsonValue, Seq<char>>(j),
            Err(e) => parsed_doc(bytes@) == Err::<JsonValue, Seq<char>>(e@),
        },
{
    match serde_json::from_slice::<serde_json::Value>(bytes) {
        Ok(v) => Ok(json_tree(v)),
        Err(e) => Err(e.to_string()),
    }
}

/// The first value bound to `key` in an object's field list, if any.
pub open spec fn spec_field(fields: Seq<(String, JsonValue)>, key: Seq<char>) -> Option<JsonValue>
    decreases fields.len(),
{
    if fields.len() == 0 {
        None
    } else if fields[0].0@ == key {
        Some(fields[0].1)
    } else {
        spec_field(fields.drop_first(), key)
    }
}

/// Looks a key up in an object's field list.
pub fn get_field<'a>(fields: &'a Vec<(String, JsonValue)>, key: &String) -> (r: Option<
    &'a JsonValue,
>)
    ensures
        match r {
            Some(v) => spec_field(fields@, key@) == Some(*v),
            None => spec_field(fields@, key@) is None,
        },
{
    let n: usize = fields.len();
    let mut i: usize = 0;
    assert(fields@.skip(0) =~= fields@);
    while i < n
        invariant
            n == fields@.len(),
            i <= n,
            spec_field(fields@, key@) == spec_field(fields@.skip(i as int), key@),
        decreases n - i,
    {
        assert(fields@.skip(i as int)[0] == fields@[i as int]);
        if fields[i].0 == *key {
            return Some(&fields[i].1);
        }
        assert(fields@.skip(i as int).drop_first() =~= fields@.skip(i + 1));
        i = i + 1;
    }
    assert(fields@.skip(n as int).len() == 0);
    None
}

} // verus!
