//! A plain tree model of parsed JSON documents.
//!
//! The only trusted step is the text-to-tree parse, done by `serde_json`;
//! everything that reads the tree afterwards is verified against this model.

use vstd::prelude::*;

verus! {

/// One parsed JSON document. Numbers that fit in `u64` keep their value;
/// the protocol this crate decodes uses no other numbers, so any other
/// number keeps only the fact that it was a number.
#[derive(Debug, PartialEq, Eq)]
pub enum JsonValue {
    Null,
    Bool(bool),
    Uint(u64),
    OtherNum,
    Str(String),
    Arr(Vec<JsonValue>),
    Obj(Vec<(String, JsonValue)>),
}

/// The document that a line of text parses to, or `None` when the text is
/// not valid JSON. Only `parse_json` gives this name a meaning.
pub uninterp spec fn json_of(s: Seq<char>) -> Option<JsonValue>;

/// Relies on `serde_json::from_str::<serde_json::Value>`: the parse of a
/// JSON document is a function of the input text alone, and text that is
/// not valid JSON gives an error.
#[verifier::external_body]
pub fn parse_json(s: &str) -> (r: Option<JsonValue>)
    ensures
        r == json_of(s@),
{
    match serde_json::from_str::<serde_json::Value>(s) {
        Ok(v) => Some(json_tree(v)),
        Err(_) => None,
    }
}

/// Relies on `serde_json::Value`: rebuilds a parsed document as the
/// library's own tree, one arm per variant, moving the fields.
#[verifier::external_body]
fn json_tree(v: serde_json::Value) -> JsonValue {
    match v {
        serde_json::Value::Null => JsonValue::Null,
        serde_json::Value::Bool(b) => JsonValue::Bool(b),
        serde_json::Value::Number(n) => match n.as_u64() {
            Some(u) => JsonValue::Uint(u),
            None => JsonValue::OtherNum,
        },
        serde_json::Value::String(s) => JsonValue::Str(s),
        serde_json::Value::Array(a) => JsonValue::Arr(a.into_iter().map(json_tree).collect()),
        serde_json::Value::Object(o) => JsonValue::Obj(
            o.into_iter().map(|(k, x)| (k, json_tree(x))).collect(),
        ),
    }
}

#[verifier::external_type_specification]
#[verifier::external_body]
pub struct ExJsonDocument(serde_json::Value);

/// The value under the first entry of `fields` whose key reads `key`.
pub open spec fn spec_obj_get(fields: Seq<(String, JsonValue)>, key: Seq<char>) -> Option<
    JsonValue,
>
    decreases fields.len(),
{
    if fields.len() == 0 {
        None
    } else if fields[0].0@ == key {
        Some(fields[0].1)
    } else {
        spec_obj_get(fields.skip(1), key)
    }
}

/// Looks a key up in an object's entry list, first match wins.
pub fn obj_get<'a>(fields: &'a Vec<(String, JsonValue)>, key: &String) -> (r: Option<
    &'a JsonValue,
>)
    ensures
        match r {
            Some(v) => spec_obj_get(fields@, key@) == Some(*v),
            None => spec_obj_get(fields@, key@) is None,
        },
{
    let n = fields.len();
    proof {
        assert(fields@.skip(0) =~= fields@);
    }
    for i in 0..n
        invariant
            n == fields@.len(),
            spec_obj_get(fields@.skip(i as int), key@) == spec_obj_get(fields@, key@),
    {
        proof {
            assert(fields@.skip(i as int)[0] == fields@[i as int]);
            assert(fields@.skip(i as int).skip(1) =~= fields@.skip(i as int + 1));
        }
        if fields[i].0 == *key {
            return Some(&fields[i].1);
        }
    }
    proof {
        assert(fields@.skip(n as int) =~= Seq::<(String, JsonValue)>::empty());
    }
    None
}

} // verus!
