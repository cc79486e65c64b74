//! JSON documents as plain values.

use vstd::prelude::*;
use vstd::string::StringExecFns;

verus! {

/// A JSON number, reduced to the two readings this library makes of it.
#[derive(Debug, Clone, Copy, PartialEq, Eq, Structural)]
pub struct JsonNumber {
    /// The number as a 64-bit signed integer, where it is written as an
    /// integer and is in that range.
    pub integer: Option<i64>,
    /// The bit pattern of the number as an IEEE 754 double-precision float.
    pub float_bits: Option<u64>,
}

/// A JSON value.
#[derive(Debug)]
pub enum Json {
    Null,
    Bool(bool),
    Number(JsonNumber),
    Text(String),
    Array(Vec<Json>),
    /// The members of an object, each with its name. Where a name occurs
    /// twice the first member counts.
    Object(Vec<(String, Json)>),
}

/// Among `entries`, the value of the first one that is named `key`.
pub open spec fn lookup(entries: Seq<(String, Json)>, key: Seq<char>) -> Option<Json>
    decreases entries.len(),
{
    if entries.len() == 0 {
        None
    } else if entries[0].0@ == key {
        Some(entries[0].1)
    } else {
        lookup(entries.drop_first(), key)
    }
}

impl Json {
    /// The member `key` of an object; `None` where there is no such member
    /// or the value is no object.
    pub open spec fn member(self, key: Seq<char>) -> Option<Json> {
        match self {
            Json::Object(entries) => lookup(entries@, key),
            _ => None,
        }
    }

    /// The member `key` of an object.
    pub fn get(&self, key: &str) -> (found: Option<&Json>)
        ensures
            match found {
                Some(value) => self.member(key@) == Some(*value),
                None => self.member(key@) is None,
            },
    {
        match self {
            Json::Object(entries) => {
                let wanted = String::from_str(key);
                let mut i: usize = 0;
                assert(entries@.skip(0) =~= entries@);
                while i < entries.len()
                    invariant
                        i <= entries.len(),
                        wanted@ == key@,
                        self.member(key@) == lookup(entries@, key@),
                        lookup(entries@, key@) == lookup(entries@.skip(i as int), key@),
                    decreases entries.len() - i,
                {
                    assert(entries@.skip(i as int).drop_first() =~= entries@.skip(i + 1));
                    assert(entries@.skip(i as int)[0] == entries@[i as int]);
                    if entries[i].0 == wanted {
                        return Some(&entries[i].1);
                    }
                    i = i + 1;
                }
                None
            },
            _ => None,
        }
    }
}

/// `serde_json::Value`, a JSON value as `serde_json` holds it.
#[verifier::external_type_specification]
#[verifier::external_body]
pub struct ExValue(serde_json::Value);

/// `serde_json::Error`, the reason why `serde_json` refused a text.
#[verifier::external_type_specification]
#[verifier::external_body]
pub struct ExError(serde_json::Error);

/// What a value of `serde_json` holds, as a [`Json`].
pub uninterp spec fn json_tree(value: serde_json::Value) -> Json;

/// The document that a body holds, or `None` where the body is not JSON.
pub uninterp spec fn json_document(body: Seq<u8>) -> Option<Json>;

/// Moves a value of `serde_json` into a [`Json`], variant by variant. Of a
/// number it keeps what `Number::as_i64` and `Number::as_f64` return, the
/// float as its bits; the members of an object come in the order in which
/// the map of `serde_json` hands them out. The contract gives what comes
/// out its name and claims no more.
#[verifier::external_body]
fn json_from_value(value: serde_json::Value) -> (tree: Json)
    ensures
        tree == json_tree(value),
{
    match value {
        serde_json::Value::Null => Json::Null,
        serde_json::Value::Bool(b) => Json::Bool(b),
        serde_json::Value::Number(n) => Json::Number(
            JsonNumber { integer: n.as_i64(), float_bits: n.as_f64().map(|x| x.to_bits()) },
        ),
        serde_json::Value::String(s) => Json::Text(s),
        serde_json::Value::Array(items) => Json::Array(items.into_iter().map(json_from_value).collect()),
        serde_json::Value::Object(map) => Json::Object(
            map.into_iter().map(|(k, v)| (k, json_from_value(v))).collect(),
        ),
    }
}

/// Calls `serde_json::from_slice` for a `serde_json::Value`. The contract
/// claims that the outcome depends on the bytes alone: the same body is
/// always refused, or always gives a value that holds the same document.
#[verifier::external_body]
fn parse_value(body: &[u8]) -> (parsed: Result<serde_json::Value, serde_json::Error>)
    ensures
        match parsed {
            Ok(value) => json_document(body@) == Some(json_tree(value)),
            Err(_) => json_document(body@) is None,
        },
{
    serde_json::from_slice::<serde_json::Value>(body)
}

/// Reads a body as a JSON document.
pub fn parse(body: &[u8]) -> (document: Option<Json>)
    ensures
        document == json_document(body@),
{
    match parse_value(body) {
        Ok(value) => Some(json_from_value(value)),
        Err(_) => None,
    }
}

} // verus!
