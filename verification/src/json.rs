//! JSON payloads.
//!
//! Message payloads and tool arguments are `serde_json::Value`s. The verifier
//! treats such a value as opaque: it is carried through the runtime unchanged
//! and only the handful of operations below look inside it. Their contracts
//! are taken on trust from `serde_json`.

use std::collections::HashMap;
use vstd::prelude::*;

verus! {

/// `serde_json::Value`, opaque to the verifier.
#[verifier::external_type_specification]
#[verifier::external_body]
pub struct ExJsonValue(serde_json::Value);

/// What a JSON value holds, as its compact JSON text. Contracts speak of
/// values through this text.
pub uninterp spec fn json_text(value: serde_json::Value) -> Seq<char>;

/// The text of the JSON string value that holds the given characters.
pub uninterp spec fn json_string_text(content: Seq<char>) -> Seq<char>;

/// The text of the value that `serde_json` reads from a text, or `None`
/// where the text is not one JSON value.
pub uninterp spec fn json_parsed_text(text: Seq<char>) -> Option<Seq<char>>;

/// The text of the JSON object with the given members, each given by its
/// own text.
pub uninterp spec fn json_object_text(members: Map<String, Seq<char>>) -> Seq<char>;

/// The members of a map of JSON values, each by its text.
pub open spec fn member_texts(members: Map<String, serde_json::Value>) -> Map<String, Seq<char>> {
    members.map_values(|value: serde_json::Value| json_text(value))
}

/// `<serde_json::Value as Clone>::clone`: the derived, field-by-field copy.
/// Trusted: the copy is the same value as the one copied.
pub assume_specification[ <serde_json::Value as Clone>::clone ](
    value: &serde_json::Value,
) -> (copy: serde_json::Value)
    ensures
        copy == *value,
;

/// `serde_json::Value`'s `to_string`, which writes the compact rendering
/// through its `Display` impl. Trusted: the text depends on the value alone.
#[verifier::external_body]
pub(crate) fn value_to_text(value: &serde_json::Value) -> (text: String)
    ensures
        text@ == json_text(*value),
{
    value.to_string()
}

/// The variant constructor `serde_json::Value::String`. Trusted: what the
/// result holds depends on the characters alone.
#[verifier::external_body]
pub(crate) fn string_value(content: String) -> (value: serde_json::Value)
    ensures
        json_text(value) == json_string_text(content@),
{
    serde_json::Value::String(content)
}

/// `serde_json::from_str` at type `Value`. Trusted: whether the text is read,
/// and what the value read holds, depend on the text alone; the parse error
/// is dropped.
#[verifier::external_body]
pub(crate) fn parse_value(text: &str) -> (parsed: Option<serde_json::Value>)
    ensures
        parsed matches Some(value) ==> json_parsed_text(text@) == Some(json_text(value)),
        parsed is None ==> json_parsed_text(text@) is None,
{
    serde_json::from_str::<serde_json::Value>(text).ok()
}

/// `serde_json::Value::Object` over a `serde_json::Map` collected from the
/// entries of a hash map. Trusted: what the object holds depends on the keys
/// and on what the members hold alone, because the map behind a JSON object
/// keeps its members sorted by key.
#[verifier::external_body]
pub(crate) fn object_value(members: &HashMap<String, serde_json::Value>) -> (value:
    serde_json::Value)
    ensures
        json_text(value) == json_object_text(member_texts(members@)),
{
    serde_json::Value::Object(members.clone().into_iter().collect())
}

} // verus!
