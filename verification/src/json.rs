//! JSON documents, read through `serde_json`.
//!
//! A document is an opaque `serde_json::Value`. Everything in this module is
//! trusted: each function hands one call to `serde_json`, and its contract
//! names what that call returns. The rest of the crate reasons about documents
//! through these names only.

use serde_json::Number;
use serde_json::Value;
use vstd::prelude::*;

verus! {

#[verifier::external_type_specification]
#[verifier::external_body]
pub struct ExValue(serde_json::Value);

#[verifier::external_type_specification]
#[verifier::external_body]
pub struct ExNumber(serde_json::Number);

/// The document that `serde_json::from_str` reads from a text, `None` where
/// the text is not valid JSON.
pub uninterp spec fn json_parse(text: Seq<char>) -> Option<Value>;

/// The member that `Value::get` finds under a key: `None` where the value is
/// not an object or has no such member.
pub uninterp spec fn json_field(v: Value, key: Seq<char>) -> Option<Value>;

/// The elements that `Value::as_array` gives: `None` where the value is not an
/// array.
pub uninterp spec fn json_items(v: Value) -> Option<Seq<Value>>;

/// The text that `Value::as_str` gives: `None` where the value is not a
/// string.
pub uninterp spec fn json_str(v: Value) -> Option<Seq<char>>;

/// The truth value that `Value::as_bool` gives: `None` where the value is not
/// a boolean.
pub uninterp spec fn json_bool(v: Value) -> Option<bool>;

/// The integer that `Value::as_i64` gives: `None` where the value is not a
/// number, or is one that is no integer or does not fit in 64 bits with a
/// sign.
pub uninterp spec fn json_i64(v: Value) -> Option<i64>;

/// The number that `Value::as_number` gives: `None` where the value is not a
/// number.
pub uninterp spec fn json_number(v: Value) -> Option<Number>;

/// The text that `Number` displays as.
pub uninterp spec fn json_number_text(n: Number) -> Seq<char>;

/// The compact JSON text that `serde_json::to_string` writes for a value:
/// `None` where it reports an error.
pub uninterp spec fn json_render(v: Value) -> Option<Seq<char>>;

/// Parses a text with `serde_json::from_str`. The result is the document
/// named by [`json_parse`]; a parse error becomes `None`.
#[verifier::external_body]
pub(crate) fn parse(text: &str) -> (r: Option<Value>)
    ensures
        r == json_parse(text@),
{
    match serde_json::from_str::<Value>(text) {
        Ok(v) => Some(v),
        Err(_) => None,
    }
}

/// Looks a key up with `Value::get`. The result is the member named by
/// [`json_field`].
#[verifier::external_body]
pub(crate) fn field<'a>(v: &'a Value, key: &str) -> (r: Option<&'a Value>)
    ensures
        match r {
            Some(m) => json_field(*v, key@) == Some(*m),
            None => json_field(*v, key@) is None,
        },
{
    v.get(key)
}

/// Reads an array with `Value::as_array`. The result holds the elements named
/// by [`json_items`].
#[verifier::external_body]
pub(crate) fn items<'a>(v: &'a Value) -> (r: Option<&'a Vec<Value>>)
    ensures
        match r {
            Some(a) => json_items(*v) == Some(a@),
            None => json_items(*v) is None,
        },
{
    v.as_array()
}

/// Reads a string with `Value::as_str`. The result is the text named by
/// [`json_str`].
#[verifier::external_body]
pub(crate) fn text<'a>(v: &'a Value) -> (r: Option<&'a str>)
    ensures
        match r {
            Some(s) => json_str(*v) == Some(s@),
            None => json_str(*v) is None,
        },
{
    v.as_str()
}

/// Reads a boolean with `Value::as_bool`. The result is the truth value named
/// by [`json_bool`].
#[verifier::external_body]
pub(crate) fn flag(v: &Value) -> (r: Option<bool>)
    ensures
        r == json_bool(*v),
{
    v.as_bool()
}

/// Reads an integer with `Value::as_i64`. The result is the integer named by
/// [`json_i64`].
#[verifier::external_body]
pub(crate) fn integer(v: &Value) -> (r: Option<i64>)
    ensures
        r == json_i64(*v),
{
    v.as_i64()
}

/// Reads a number with `Value::as_number`. The result is the number named by
/// [`json_number`].
#[verifier::external_body]
pub(crate) fn number<'a>(v: &'a Value) -> (r: Option<&'a Number>)
    ensures
        match r {
            Some(n) => json_number(*v) == Some(*n),
            None => json_number(*v) is None,
        },
{
    v.as_number()
}

/// Writes a number as text through its `Display` impl. The result is the
/// text named by [`json_number_text`].
#[verifier::external_body]
pub(crate) fn number_text(n: &Number) -> (r: String)
    ensures
        r@ == json_number_text(*n),
{
    n.to_string()
}

/// Writes a value as compact JSON with `serde_json::to_string`. The result
/// is the text named by [`json_render`]; an error becomes `None`.
#[verifier::external_body]
pub(crate) fn render(v: &Value) -> (r: Option<String>)
    ensures
        match r {
            Some(s) => json_render(*v) == Some(s@),
            None => json_render(*v) is None,
        },
{
    match serde_json::to_string(v) {
        Ok(s) => Some(s),
        Err(_) => None,
    }
}

} // verus!
