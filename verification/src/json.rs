//! JSON documents as plain values.

use crate::text::same_text;
use serde_json::Value;
use vstd::prelude::*;

verus! {

/// A JSON number: a whole number where it is one, else the bits of the
/// IEEE 754 double that stands for it.
#[derive(Debug, Clone, Copy, PartialEq, Eq, Structural)]
pub enum JsonNumber {
    /// A whole number from zero up.
    PosInt(u64),
    /// A whole number below zero.
    NegInt(i64),
    /// Any other number, as the bit pattern of a double.
    Float(u64),
}

/// A JSON document.
///
/// The members of an object are kept as a list of pairs of a key and a
/// value.
#[derive(Debug, PartialEq, Eq)]
pub enum JsonValue {
    /// `null`.
    Null,
    /// `true` or `false`.
    Bool(bool),
    /// A number.
    Number(JsonNumber),
    /// A string.
    String(String),
    /// An array, with its items in their order.
    Array(Vec<JsonValue>),
    /// An object, with its members in the order in which they are gone
    /// through.
    Object(Vec<(String, JsonValue)>),
}

/// `serde_json::Value`, which is only carried from the parser to
/// [`JsonValue`].
#[verifier::external_type_specification]
#[verifier::external_body]
pub struct ExSerdeValue(serde_json::Value);

/// The document that `serde_json` reads from a text, where it reads one.
pub uninterp spec fn json_document(text: Seq<u8>) -> Option<JsonValue>;

/// The document that a `serde_json::Value` holds.
pub uninterp spec fn json_tree(value: Value) -> JsonValue;

/// `serde_json::from_slice` for a `serde_json::Value`: the call succeeds
/// on the texts that hold a document, and its value holds that document.
/// What is claimed is that the outcome is a matter of the text alone.
#[verifier::external_body]
fn serde_from_slice(text: &[u8]) -> (r: Option<Value>)
    ensures
        match r {
            Some(value) => json_document(text@) == Some(json_tree(value)),
            None => json_document(text@) is None,
        },
{
    serde_json::from_slice::<Value>(text).ok()
}

/// Takes a `serde_json::Value` apart, variant by variant, into the
/// [`JsonValue`] that it holds. A number is told apart by
/// `serde_json::Number::as_u64`, `as_i64` and `as_f64`. Nothing is claimed
/// of the result but that it is that document.
#[verifier::external_body]
fn lower(value: Value) -> (r: JsonValue)
    ensures
        r == json_tree(value),
{
    match value {
        Value::Null => JsonValue::Null,
        Value::Bool(b) => JsonValue::Bool(b),
        Value::Number(n) => JsonValue::Number(match (n.as_u64(), n.as_i64()) {
            (Some(u), _) => JsonNumber::PosInt(u),
            (_, Some(i)) => JsonNumber::NegInt(i),
            _ => JsonNumber::Float(n.as_f64().unwrap_or_default().to_bits()),
        }),
        Value::String(s) => JsonValue::String(s),
        Value::Array(a) => JsonValue::Array(a.into_iter().map(lower).collect()),
        Value::Object(m) => JsonValue::Object(m.into_iter().map(|(k, v)| (k, lower(v))).collect()),
    }
}

/// Reads a JSON document from a text.
pub fn parse_json(text: &[u8]) -> (r: Option<JsonValue>)
    ensures
        r == json_document(text@),
{
    match serde_from_slice(text) {
        Some(value) => Some(lower(value)),
        None => None,
    }
}

/// The value of the member `name` in a list of members: that of the first
/// member of that name, if there is one.
pub open spec fn member(members: Seq<(String, JsonValue)>, name: Seq<char>) -> Option<JsonValue>
    decreases members.len(),
{
    if members.len() == 0 {
        None
    } else if members[0].0@ == name {
        Some(members[0].1)
    } else {
        member(members.drop_first(), name)
    }
}

/// A field that must be there and hold a string.
pub open spec fn text_field(value: Option<JsonValue>) -> Option<Seq<char>> {
    match value {
        Some(JsonValue::String(text)) => Some(text@),
        _ => None,
    }
}

/// A field that may be missing or null, and else must hold a string. The
/// outer `None` stands for a value of another kind.
pub open spec fn optional_text_field(value: Option<JsonValue>) -> Option<Option<Seq<char>>> {
    match value {
        None => Some(None),
        Some(JsonValue::Null) => Some(None),
        Some(JsonValue::String(text)) => Some(Some(text@)),
        _ => None,
    }
}

/// A field that must be there and hold a whole number from zero up to
/// `limit`.
pub open spec fn number_field(value: Option<JsonValue>, limit: u64) -> Option<u64> {
    match value {
        Some(JsonValue::Number(JsonNumber::PosInt(n))) => if n <= limit {
            Some(n)
        } else {
            None
        },
        _ => None,
    }
}

/// A field that may be missing or null, and else must hold a whole number
/// from zero up to `limit`.
pub open spec fn optional_number_field(value: Option<JsonValue>, limit: u64) -> Option<Option<u64>> {
    match value {
        None => Some(None),
        Some(JsonValue::Null) => Some(None),
        Some(JsonValue::Number(JsonNumber::PosInt(n))) => if n <= limit {
            Some(Some(n))
        } else {
            None
        },
        _ => None,
    }
}

/// A field that may be missing or null, and else must hold a number of any
/// kind.
pub open spec fn optional_any_number_field(value: Option<JsonValue>) -> Option<Option<JsonNumber>> {
    match value {
        None => Some(None),
        Some(JsonValue::Null) => Some(None),
        Some(JsonValue::Number(n)) => Some(Some(n)),
        _ => None,
    }
}

/// Looks a member up by its name.
pub fn find_member<'a>(members: &'a Vec<(String, JsonValue)>, name: &str) -> (r: Option<&'a JsonValue>)
    ensures
        match r {
            Some(value) => member(members@, name@) == Some(*value),
            None => member(members@, name@) is None,
        },
{
    let mut i: usize = 0;
    assert(members@.skip(0) =~= members@);
    while i < members.len()
        invariant
            i <= members@.len(),
            member(members@, name@) == member(members@.skip(i as int), name@),
        decreases members@.len() - i,
    {
        proof {
            assert(members@.skip(i as int)[0] == members@[i as int]);
            assert(members@.skip(i as int).drop_first() =~= members@.skip(i + 1));
        }
        if same_text(members[i].0.as_str(), name) {
            return Some(&members[i].1);
        }
        i += 1;
    }
    None
}

/// Reads a field that must hold a string.
pub fn read_text(value: Option<&JsonValue>) -> (r: Option<String>)
    ensures
        match r {
            Some(text) => text_field(deref_value(value)) == Some(text@),
            None => text_field(deref_value(value)) is None,
        },
{
    match value {
        Some(JsonValue::String(text)) => Some(text.clone()),
        _ => None,
    }
}

/// Reads a field that may hold a string.
pub fn read_optional_text(value: Option<&JsonValue>) -> (r: Option<Option<String>>)
    ensures
        match r {
            Some(Some(text)) => optional_text_field(deref_value(value)) == Some(Some(text@)),
            Some(None) => optional_text_field(deref_value(value)) == Some(None::<Seq<char>>),
            None => optional_text_field(deref_value(value)) is None,
        },
{
    match value {
        None => Some(None),
        Some(JsonValue::Null) => Some(None),
        Some(JsonValue::String(text)) => Some(Some(text.clone())),
        _ => None,
    }
}

/// Reads a field that must hold a whole number from zero up to `limit`.
pub fn read_number(value: Option<&JsonValue>, limit: u64) -> (r: Option<u64>)
    ensures
        r == number_field(deref_value(value), limit),
{
    match value {
        Some(JsonValue::Number(JsonNumber::PosInt(n))) => if *n <= limit {
            Some(*n)
        } else {
            None
        },
        _ => None,
    }
}

/// Reads a field that may hold a whole number from zero up to `limit`.
pub fn read_optional_number(value: Option<&JsonValue>, limit: u64) -> (r: Option<Option<u64>>)
    ensures
        r == optional_number_field(deref_value(value), limit),
{
    match value {
        None => Some(None),
        Some(JsonValue::Null) => Some(None),
        Some(JsonValue::Number(JsonNumber::PosInt(n))) => if *n <= limit {
            Some(Some(*n))
        } else {
            None
        },
        _ => None,
    }
}

/// Reads a field that may hold a number of any kind.
pub fn read_optional_any_number(value: Option<&JsonValue>) -> (r: Option<Option<JsonNumber>>)
    ensures
        r == optional_any_number_field(deref_value(value)),
{
    match value {
        None => Some(None),
        Some(JsonValue::Null) => Some(None),
        Some(JsonValue::Number(n)) => Some(Some(*n)),
        _ => None,
    }
}

/// What a borrowed value is, if there is one.
pub open spec fn deref_value(value: Option<&JsonValue>) -> Option<JsonValue> {
    match value {
        Some(v) => Some(*v),
        None => None,
    }
}

} // verus!
