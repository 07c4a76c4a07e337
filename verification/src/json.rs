//! Reading JSON documents with `serde_json`: what the library believes of the
//! calls it makes.

use vstd::prelude::*;

verus! {

/// `serde_json::Value`, a JSON value that the library carries through
/// without looking inside.
#[verifier::external_type_specification]
#[verifier::external_body]
pub struct ExJsonValue(serde_json::Value);

/// The members of a JSON value that are strings, by their keys. A value that
/// is no object has none.
pub uninterp spec fn text_members(value: serde_json::Value) -> Map<Seq<char>, Seq<char>>;

/// What reading a text as JSON gives.
pub enum JsonRead {
    /// The text is a JSON document; holds its string members.
    Document(Map<Seq<char>, Seq<char>>),
    /// The text is no JSON document; holds the reader's complaint.
    Complaint(Seq<char>),
}

/// What reading `text` as JSON gives.
pub uninterp spec fn json_read(text: Seq<char>) -> JsonRead;

/// `serde_json::from_str` for a `serde_json::Value`: the document that `text`
/// holds, or the reader's complaint as text. The same text reads the same way
/// every time.
#[verifier::external_body]
pub(crate) fn parse_json(text: &str) -> (r: Result<serde_json::Value, String>)
    ensures
        r matches Ok(value) ==> json_read(text@) == JsonRead::Document(text_members(value)),
        r matches Err(complaint) ==> json_read(text@) == JsonRead::Complaint(complaint@),
{
    match serde_json::from_str::<serde_json::Value>(text) {
        Ok(value) => Ok(value),
        Err(e) => Err(e.to_string()),
    }
}

/// Indexing a `serde_json::Value` by a key and `Value::as_str` on what is
/// found: the member under `key` where the value is an object that holds a
/// string there, else nothing.
#[verifier::external_body]
pub(crate) fn text_member(value: &serde_json::Value, key: &str) -> (r: Option<String>)
    ensures
        r is Some <==> text_members(*value).contains_key(key@),
        r matches Some(s) ==> s@ == text_members(*value)[key@],
{
    match value[key].as_str() {
        Some(s) => Some(s.to_owned()),
        None => None,
    }
}

} // verus!
