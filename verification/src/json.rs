//! JSON values, which are stored and sent without being looked into.

use vstd::prelude::*;

verus! {

/// The JSON values of `serde_json`.
#[verifier::external_type_specification]
#[verifier::external_body]
pub struct ExValue(serde_json::Value);

/// The compact JSON text of a value.
pub uninterp spec fn json_text(value: serde_json::Value) -> Seq<char>;

/// The JSON string that holds a text.
pub uninterp spec fn json_string_of(text: Seq<char>) -> serde_json::Value;

/// Calls `to_string` of `serde_json::Value`, which writes the value in compact form.
#[verifier::external_body]
pub(crate) fn json_to_string(value: &serde_json::Value) -> (text: String)
    ensures
        text@ == json_text(*value),
{
    value.to_string()
}

/// Calls `from` of `serde_json::Value` on a text: the JSON string that holds it.
#[verifier::external_body]
pub(crate) fn json_string(text: &str) -> (value: serde_json::Value)
    ensures
        value == json_string_of(text@),
{
    serde_json::Value::from(text)
}

/// Calls `clone` of `serde_json::Value`: the copy is the same value.
#[verifier::external_body]
pub(crate) fn json_clone(value: &serde_json::Value) -> (copy: serde_json::Value)
    ensures
        copy == *value,
{
    value.clone()
}

} // verus!
