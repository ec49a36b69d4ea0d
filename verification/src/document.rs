//! Reading JSON documents: optional members, and the defaults that take
//! the place of what a document lacks.

use crate::json::{
    field, flag, integer, items, json_bool, json_field, json_i64, json_items, json_str, text,
};
use serde_json::Value;
use vstd::prelude::*;

verus! {

/// The value behind an optional reference.
pub open spec fn held(v: Option<&Value>) -> Option<Value> {
    match v {
        Some(v) => Some(*v),
        None => None,
    }
}

/// The member of an optional value under a key.
pub open spec fn member(v: Option<Value>, key: Seq<char>) -> Option<Value> {
    match v {
        Some(v) => json_field(v, key),
        None => None,
    }
}

/// The text of an optional value.
pub open spec fn text_of(v: Option<Value>) -> Option<Seq<char>> {
    match v {
        Some(v) => json_str(v),
        None => None,
    }
}

/// The elements of an optional value.
pub open spec fn items_of(v: Option<Value>) -> Option<Seq<Value>> {
    match v {
        Some(v) => json_items(v),
        None => None,
    }
}

/// The truth value of an optional value.
pub open spec fn flag_of(v: Option<Value>) -> Option<bool> {
    match v {
        Some(v) => json_bool(v),
        None => None,
    }
}

/// The integer of an optional value.
pub open spec fn integer_of(v: Option<Value>) -> Option<i64> {
    match v {
        Some(v) => json_i64(v),
        None => None,
    }
}

/// A text, or the empty text in its place.
pub open spec fn or_empty(t: Option<Seq<char>>) -> Seq<char> {
    match t {
        Some(t) => t,
        None => Seq::empty(),
    }
}

/// The member of a value under a key, where there is a value.
pub fn member_of<'a>(v: Option<&'a Value>, key: &str) -> (r: Option<&'a Value>)
    ensures
        held(r) == member(held(v), key@),
{
    match v {
        Some(v) => field(v, key),
        None => None,
    }
}

/// The text of a value, where there is a value and it is a string, copied.
pub fn text_at(v: Option<&Value>) -> (r: Option<String>)
    ensures
        r.deep_view() == text_of(held(v)),
{
    match v {
        Some(v) => match text(v) {
            Some(s) => Some(s.to_owned()),
            None => None,
        },
        None => None,
    }
}

/// The text of a value, or the empty text where it has none.
pub fn text_or_empty(v: Option<&Value>) -> (r: String)
    ensures
        r@ == or_empty(text_of(held(v))),
{
    match text_at(v) {
        Some(s) => s,
        None => String::new(),
    }
}

/// The elements of a value, where there is a value and it is an array.
pub fn items_at<'a>(v: Option<&'a Value>) -> (r: Option<&'a Vec<Value>>)
    ensures
        match r {
            Some(a) => items_of(held(v)) == Some(a@),
            None => items_of(held(v)) is None,
        },
{
    match v {
        Some(v) => items(v),
        None => None,
    }
}

/// The truth value of a value, where there is a value and it is a boolean.
pub fn flag_at(v: Option<&Value>) -> (r: Option<bool>)
    ensures
        r == flag_of(held(v)),
{
    match v {
        Some(v) => flag(v),
        None => None,
    }
}

/// The integer of a value, where there is a value and it is an integer.
pub fn integer_at(v: Option<&Value>) -> (r: Option<i64>)
    ensures
        r == integer_of(held(v)),
{
    match v {
        Some(v) => integer(v),
        None => None,
    }
}

} // verus!
