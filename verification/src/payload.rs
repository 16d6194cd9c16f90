//! What the actor's answer to a request for one entry holds, read from its
//! JSON document.

use vstd::prelude::*;
use vstd::string::*;
use crate::chat::NOT_FOUND_CODE;
use crate::text::str_eq;

verus! {

/// A JSON value of `serde_json`. Nothing of its inside is known here: it is
/// looked into through the functions below.
#[verifier::external_type_specification]
#[verifier::external_body]
pub struct ExJsonValue(serde_json::Value);

/// An error of `serde_json`.
#[verifier::external_type_specification]
#[verifier::external_body]
pub struct ExJsonError(serde_json::Error);

/// What `serde_json::from_slice` reads from bytes as a JSON value: the
/// document, or none where the bytes are no JSON text.
pub uninterp spec fn parsed_document(bytes: Seq<u8>) -> Option<serde_json::Value>;

/// What `serde_json::Value::get` finds under a key: the member of that name
/// where the value is an object that has one, else none.
pub uninterp spec fn member(document: serde_json::Value, key: Seq<char>) -> Option<
    serde_json::Value,
>;

/// What `serde_json::Value::as_str` returns: the text where the value is a
/// string, else none.
pub uninterp spec fn string_of(value: serde_json::Value) -> Option<Seq<char>>;

/// What the `Display` of `serde_json::Value` writes: the value as compact
/// JSON text.
pub uninterp spec fn json_text(value: serde_json::Value) -> Seq<char>;

/// Calls `serde_json::from_slice` for a `serde_json::Value`, and names what
/// it returns.
#[verifier::external_body]
fn parse_document(bytes: &[u8]) -> (r: Result<serde_json::Value, serde_json::Error>)
    ensures
        match r {
            Ok(document) => parsed_document(bytes@) == Some(document),
            Err(_) => parsed_document(bytes@) is None,
        },
{
    serde_json::from_slice::<serde_json::Value>(bytes)
}

/// Calls `serde_json::Value::get` with a key, and names what it returns.
#[verifier::external_body]
fn get_member<'a>(document: &'a serde_json::Value, key: &str) -> (r: Option<&'a serde_json::Value>)
    ensures
        match r {
            Some(found) => member(*document, key@) == Some(*found),
            None => member(*document, key@) is None,
        },
{
    document.get(key)
}

/// Calls `serde_json::Value::as_str`, and names what it returns.
#[verifier::external_body]
fn get_string(value: &serde_json::Value) -> (r: Option<String>)
    ensures
        r.deep_view() == string_of(*value),
{
    value.as_str().map(|text| text.to_owned())
}

/// Writes a value out with the `Display` of `serde_json::Value`, and names
/// the text.
#[verifier::external_body]
fn write_json(value: &serde_json::Value) -> (r: String)
    ensures
        r@ == json_text(*value),
{
    value.to_string()
}

/// Writes an error out with the `Display` of `serde_json::Error`. Nothing
/// is claimed of the text.
#[verifier::external_body]
fn write_error(error: &serde_json::Error) -> (r: String) {
    error.to_string()
}

/// What an answer to a request for one entry holds.
#[derive(Debug, PartialEq, Eq)]
pub enum MessagePayload {
    /// An entry, as JSON text.
    Entry { json: String },
    /// The word that there is no such entry. This is no failure: it is how
    /// a chain walk learns that it has come to the end of what is held.
    NotFound,
    /// An error of the actor, as JSON text.
    Failed { error: String },
    /// Neither an entry nor an error: the answer belongs to something else.
    Other,
    /// No JSON document.
    Unparsable { detail: String },
}

/// Whether an error reported by the actor says "not found": its member
/// `code` is the string "404".
pub open spec fn says_not_found(error: serde_json::Value) -> bool {
    match member(error, "code"@) {
        Some(code) => string_of(code) == Some(NOT_FOUND_CODE@),
        None => false,
    }
}

/// Whether `payload` is what `document` holds. A member `message` is the
/// entry, whatever else there is; failing that, a member `error` is an
/// error, and "not found" where it says so.
pub open spec fn holds(document: serde_json::Value, payload: MessagePayload) -> bool {
    match member(document, "message"@) {
        Some(entry) => payload matches MessagePayload::Entry { json } && json@ == json_text(
            entry,
        ),
        None => match member(document, "error"@) {
            Some(error) => if says_not_found(error) {
                payload == MessagePayload::NotFound
            } else {
                payload matches MessagePayload::Failed { error: text } && text@ == json_text(
                    error,
                )
            },
            None => payload == MessagePayload::Other,
        },
    }
}

/// Reads from a JSON document what an answer to a request for one entry
/// holds.
pub fn classify_document(document: &serde_json::Value) -> (r: MessagePayload)
    ensures
        holds(*document, r),
{
    if let Some(entry) = get_member(document, "message") {
        return MessagePayload::Entry { json: write_json(entry) };
    }
    match get_member(document, "error") {
        Some(error) => {
            let not_found = match get_member(error, "code") {
                Some(code) => match get_string(code) {
                    Some(text) => str_eq(text.as_str(), NOT_FOUND_CODE),
                    None => false,
                },
                None => false,
            };
            if not_found {
                MessagePayload::NotFound
            } else {
                MessagePayload::Failed { error: write_json(error) }
            }
        },
        None => MessagePayload::Other,
    }
}

/// Reads from the bytes of an answer to a request for one entry what it
/// holds.
pub fn classify_message_payload(bytes: &[u8]) -> (r: MessagePayload)
    ensures
        match parsed_document(bytes@) {
            Some(document) => holds(document, r),
            None => r is Unparsable,
        },
{
    match parse_document(bytes) {
        Ok(document) => classify_document(&document),
        Err(error) => MessagePayload::Unparsable { detail: write_error(&error) },
    }
}

} // verus!
