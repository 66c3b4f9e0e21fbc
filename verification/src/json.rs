//! Strings out of JSON documents.

use crate::text;
use vstd::prelude::*;

verus! {

/// The string under a key of the JSON object that a text spells; nothing where
/// the text is not JSON, not an object, or has no string under that key.
pub uninterp spec fn member_string(document: Seq<char>, key: Seq<char>) -> Option<Seq<char>>;

/// The string that a JSON text spells; nothing where the text is not JSON or is
/// another kind of value.
pub uninterp spec fn plain_string(document: Seq<char>) -> Option<Seq<char>>;

/// Reads a document with `serde_json::from_str` into a `serde_json::Value`, and
/// takes a member out of it with `Value::get` and `Value::as_str`. What the three
/// calls give together depends on the document and the key alone, and goes by
/// the name [`member_string`].
#[verifier::external_body]
pub(crate) fn string_member(document: &str, key: &str) -> (res: Option<String>)
    ensures
        text::opt_view(res) == member_string(document@, key@),
{
    let value = serde_json::from_str::<serde_json::Value>(document).ok()?;
    value.get(key)?.as_str().map(str::to_owned)
}

/// Reads a document with `serde_json::from_str` into a `serde_json::Value`, and
/// takes its text with `Value::as_str`. What the two calls give together depends
/// on the document alone, and goes by the name [`plain_string`].
#[verifier::external_body]
pub(crate) fn string_value(document: &str) -> (res: Option<String>)
    ensures
        text::opt_view(res) == plain_string(document@),
{
    let value = serde_json::from_str::<serde_json::Value>(document).ok()?;
    value.as_str().map(str::to_owned)
}

} // verus!
