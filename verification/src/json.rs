//! JSON values are carried through the library as opaque `serde_json::Value`s.
use vstd::prelude::*;

verus! {

/// `serde_json::Value`, carried through the library unopened.
#[verifier::external_type_specification]
#[verifier::external_body]
pub struct ExJsonValue(serde_json::Value);

/// What `serde_json::from_str::<Value>(text).unwrap_or(Value::Null)` yields:
/// the parsed JSON document, or `Value::Null` when `text` is not valid JSON.
pub uninterp spec fn json_value_or_null(text: Seq<char>) -> serde_json::Value;

/// The JSON `null` value: what parsing the empty text falls back to.
pub open spec fn json_null() -> serde_json::Value {
    json_value_or_null(Seq::empty())
}

/// Parses `text` with `serde_json::from_str::<serde_json::Value>`, falling
/// back to `Value::Null` when it is not a JSON document. Trusted: the result
/// is the named value of the text, a function of the text alone.
#[verifier::external_body]
pub(crate) fn parse_json_or_null(text: &str) -> (v: serde_json::Value)
    ensures
        v == json_value_or_null(text@),
{
    serde_json::from_str::<serde_json::Value>(text).unwrap_or(serde_json::Value::Null)
}

/// Copies a JSON value with `<serde_json::Value as Clone>::clone`. Trusted:
/// the derived clone of `Value` yields an equal value.
#[verifier::external_body]
pub(crate) fn clone_json(v: &serde_json::Value) -> (r: serde_json::Value)
    ensures
        r == *v,
{
    v.clone()
}

/// The JSON `null` value.
pub fn null_json() -> (v: serde_json::Value)
    ensures
        v == json_null(),
{
    proof {
        reveal_strlit("");
    }
    let v = parse_json_or_null("");
    assert(""@ =~= Seq::<char>::empty());
    v
}

} // verus!
