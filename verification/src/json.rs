//! What the library takes from `serde_json`: parsing a text into a JSON
//! document, reading a document's members, and writing a string as a JSON
//! string literal. Nothing in this file is proved; each item says what it
//! takes on trust.

use serde_json::{Error, Value};
use vstd::prelude::*;

verus! {

/// A parsed JSON document, `serde_json::Value`.
#[verifier::external_type_specification]
#[verifier::external_body]
pub struct ExValue(serde_json::Value);

/// What `serde_json` reports when it cannot parse or write,
/// `serde_json::Error`.
#[verifier::external_type_specification]
#[verifier::external_body]
pub struct ExError(serde_json::Error);

/// The document that `serde_json::from_str` reads from `text`, where it
/// reads one.
pub uninterp spec fn parsed(text: Seq<char>) -> Option<Value>;

/// The member that `Value::get` finds in `doc` under `key`: `doc` is an
/// object and has `key`.
pub uninterp spec fn member(doc: Value, key: Seq<char>) -> Option<Value>;

/// The text that `Value::as_str` finds in `value`: `value` is a JSON string.
pub uninterp spec fn string_of(value: Value) -> Option<Seq<char>>;

/// The number that `Value::as_u64` finds in `value`: `value` is a JSON
/// number, an integer, and not below zero nor above `u64::MAX`.
pub uninterp spec fn unsigned_of(value: Value) -> Option<u64>;

/// `text` as a JSON string literal, quotes included, as
/// `serde_json::to_string` writes it, where it writes one.
pub uninterp spec fn quoted(text: Seq<char>) -> Option<Seq<char>>;

/// `serde_json::from_str` at the type `Value`. Trusted: whether `text`
/// parses, and to which document, depends on `text` alone.
#[verifier::external_body]
pub(crate) fn parse(text: &str) -> (r: Result<Value, Error>)
    ensures
        match r {
            Ok(doc) => parsed(text@) == Some(doc),
            Err(_) => parsed(text@) is None,
        },
{
    serde_json::from_str::<Value>(text)
}

/// `Value::get` with a string key. Trusted: the member found depends on the
/// document and the key alone.
#[verifier::external_body]
pub(crate) fn get<'a>(doc: &'a Value, key: &str) -> (r: Option<&'a Value>)
    ensures
        match r {
            Some(value) => member(*doc, key@) == Some(*value),
            None => member(*doc, key@) is None,
        },
{
    doc.get(key)
}

/// `Value::as_str`. Trusted: the text found depends on the value alone.
pub assume_specification<'a>[ Value::as_str ](value: &'a Value) -> (r: Option<&'a str>)
    ensures
        match r {
            Some(text) => string_of(*value) == Some(text@),
            None => string_of(*value) is None,
        },
;

/// `Value::as_u64`. Trusted: the number found depends on the value alone.
pub assume_specification[ Value::as_u64 ](value: &Value) -> (r: Option<u64>)
    ensures
        r == unsigned_of(*value),
;

/// `serde_json::to_string` on a string slice. Trusted: whether a literal is
/// written, and which, depends on `text` alone.
#[verifier::external_body]
pub(crate) fn quote(text: &str) -> (r: Result<String, Error>)
    ensures
        match r {
            Ok(literal) => quoted(text@) == Some(literal@),
            Err(_) => quoted(text@) is None,
        },
{
    serde_json::to_string(text)
}

/// The message of a `serde_json::Error`, as its `Display` writes it.
#[verifier::external_body]
pub(crate) fn message(error: &Error) -> String {
    error.to_string()
}

} // verus!
