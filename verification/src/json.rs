//! The boundary to `serde_json`: the document type and the five calls made on
//! it, each with the contract that the rest of the library relies on.
//!
//! Nothing in this file is proved. A `Value` is opaque to the verifier. What
//! it holds is given by `contents`, what parsing reads by `parsed` and what
//! writing gives by `rendered`: three functions without a body, of which only
//! the contracts below say anything.

use serde_json::Value;
use vstd::prelude::*;

verus! {

/// `serde_json::Value`: any JSON value, held as a tree.
#[verifier::external_type_specification]
#[verifier::external_body]
pub struct ExValue(serde_json::Value);

/// `serde_json::Error`: why a text was not accepted as JSON.
#[verifier::external_type_specification]
#[verifier::external_body]
pub struct ExError(serde_json::Error);

/// What a JSON value holds, as far as lookups can tell: the elements of an
/// array, the members of an object under their keys, or neither.
pub enum Contents {
    /// An array, with its elements in their order.
    Array(Seq<Value>),
    /// An object, with the value of each of its keys.
    Object(Map<Seq<char>, Value>),
    /// Null, a boolean, a number or a string.
    Scalar,
}

/// What the value `v` holds.
pub uninterp spec fn contents(v: Value) -> Contents;

/// The value that `serde_json::from_str` reads from `text`, or `None` where it
/// rejects the text.
pub uninterp spec fn parsed(text: Seq<char>) -> Option<Value>;

/// The compact JSON text of `v`, as its `Display` impl writes it.
pub uninterp spec fn rendered(v: Value) -> Seq<char>;

/// The elements of `v` where `v` is an array; `None` for any other value.
pub open spec fn elements(v: Value) -> Option<Seq<Value>> {
    match contents(v) {
        Contents::Array(items) => Some(items),
        _ => None,
    }
}

/// The member of `v` under `key` where `v` is an object that has the key;
/// `None` otherwise.
pub open spec fn member(v: Value, key: Seq<char>) -> Option<Value> {
    match contents(v) {
        Contents::Object(members) => if members.contains_key(key) {
            Some(members[key])
        } else {
            None
        },
        _ => None,
    }
}

/// `serde_json::from_str` at type `Value`: parses a whole text as one JSON
/// value. The outcome depends on the text alone and is named by `parsed`.
#[verifier::external_body]
pub(crate) fn from_text(text: &str) -> (r: Result<Value, serde_json::Error>)
    ensures
        match r {
            Ok(v) => parsed(text@) == Some(v),
            Err(_) => parsed(text@) is None,
        },
{
    serde_json::from_str(text)
}

/// `Value::as_array`: the vector inside an array value, `None` for a value of
/// any other kind.
#[verifier::external_body]
pub(crate) fn as_array(v: &Value) -> (r: Option<&Vec<Value>>)
    ensures
        match contents(*v) {
            Contents::Array(items) => r matches Some(vector) && vector@ == items,
            _ => r is None,
        },
{
    v.as_array()
}

/// `Value::is_object`: whether the value is an object.
#[verifier::external_body]
pub(crate) fn is_object(v: &Value) -> (r: bool)
    ensures
        r == (contents(*v) is Object),
{
    v.is_object()
}

/// `Value::get` with a string index: the member under `key` of an object that
/// has the key, `None` for an object without it and for a value that is no
/// object.
#[verifier::external_body]
pub(crate) fn get<'a>(v: &'a Value, key: &str) -> (r: Option<&'a Value>)
    ensures
        match contents(*v) {
            Contents::Object(members) => if members.contains_key(key@) {
                r matches Some(found) && *found == members[key@]
            } else {
                r is None
            },
            _ => r is None,
        },
{
    v.get(key)
}

/// `to_string` on a `Value`, which goes through its `Display` impl: the value
/// as compact JSON text. The text depends on the value alone and is named by
/// `rendered`.
#[verifier::external_body]
pub(crate) fn render(v: &Value) -> (r: String)
    ensures
        r@ == rendered(*v),
{
    v.to_string()
}

} // verus!
