//! JSON text.
use vstd::prelude::*;

use crate::text::Text;

verus! {

/// A text as a JSON string, quotes included, as `serde_json` writes it.
pub uninterp spec fn json_quoted(text: Text) -> Text;

/// The string at a pointer into a JSON document, as `serde_json` finds it;
/// `None` where the document is not JSON, where nothing is there, or where it
/// is no string.
pub uninterp spec fn json_str_at(document: Text, pointer: Text) -> Option<Text>;

/// The number at a pointer into a JSON document, as `serde_json` finds it;
/// `None` where the document is not JSON, where nothing is there, or where it
/// is no whole number that fits.
pub uninterp spec fn json_u64_at(document: Text, pointer: Text) -> Option<u64>;

/// The text of a `serde_json::Value` made from a string. The result is named.
#[verifier::external_body]
pub(crate) fn quote(text: &str) -> (s: String)
    ensures
        s@ == json_quoted(text@),
{
    serde_json::Value::from(text).to_string()
}

/// `serde_json::from_str`, `Value::pointer` and `Value::as_str`: the string at
/// a pointer into a document. The result is named.
#[verifier::external_body]
pub(crate) fn str_at(document: &str, pointer: &str) -> (r: Option<String>)
    ensures
        crate::text::opt_text(r) == json_str_at(document@, pointer@),
{
    let value: serde_json::Value = serde_json::from_str(document).ok()?;
    value.pointer(pointer)?.as_str().map(|s| s.to_owned())
}

/// `serde_json::from_str`, `Value::pointer` and `Value::as_u64`: the number at
/// a pointer into a document. The result is named.
#[verifier::external_body]
pub(crate) fn u64_at(document: &str, pointer: &str) -> (r: Option<u64>)
    ensures
        r == json_u64_at(document@, pointer@),
{
    let value: serde_json::Value = serde_json::from_str(document).ok()?;
    value.pointer(pointer)?.as_u64()
}

} // verus!
