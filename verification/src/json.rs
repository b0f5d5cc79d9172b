//! Single values of JSON documents: reading them, and writing texts.
use vstd::prelude::*;
use crate::digest;

verus! {

/// A JSON value as far as the server looks into it.
#[derive(Debug)]
pub enum Json {
    Text(String),
    /// A number, as an integer of either kind where it is one.
    Number { unsigned: Option<u64>, signed: Option<i64> },
    /// Null, a boolean, an array or an object.
    Other,
}

/// The same, as values.
pub enum JsonModel {
    Text(Seq<char>),
    Number { unsigned: Option<u64>, signed: Option<i64> },
    Other,
}

impl View for Json {
    type V = JsonModel;

    open spec fn view(&self) -> JsonModel {
        match self {
            Json::Text(text) => JsonModel::Text(text@),
            Json::Number { unsigned, signed } => JsonModel::Number {
                unsigned: *unsigned,
                signed: *signed,
            },
            Json::Other => JsonModel::Other,
        }
    }
}

/// An optional JSON value, as values.
pub open spec fn json_view(value: Option<Json>) -> Option<JsonModel> {
    match value {
        Some(value) => Some(value@),
        None => None,
    }
}

/// The value that a JSON document holds at a JSON pointer; `None` where the
/// bytes are no JSON document or nothing is there.
pub uninterp spec fn json_at(document: Seq<u8>, pointer: Seq<char>) -> Option<JsonModel>;

/// `serde_json::from_slice` into `serde_json::Value`, then
/// `serde_json::Value::pointer`: the value at the pointer is a function of the
/// document's bytes and the pointer alone. Which value a document holds where
/// is not stated further.
#[verifier::external_body]
pub(crate) fn lookup(document: &[u8], pointer: &str) -> (r: Option<Json>)
    ensures
        json_view(r) == json_at(document@, pointer@),
{
    match serde_json::from_slice::<serde_json::Value>(document) {
        Err(_) => None,
        Ok(value) => match value.pointer(pointer) {
            None => None,
            Some(serde_json::Value::String(text)) => Some(Json::Text(text.clone())),
            Some(serde_json::Value::Number(number)) => Some(
                Json::Number { unsigned: number.as_u64(), signed: number.as_i64() },
            ),
            Some(_) => Some(Json::Other),
        },
    }
}

/// A character as it stands in a JSON string.
pub open spec fn string_char(c: char) -> Seq<char> {
    if c == '"' || c == '\\' {
        seq!['\\', c]
    } else if c == '\n' {
        seq!['\\', 'n']
    } else if c == '\r' {
        seq!['\\', 'r']
    } else if c == '\t' {
        seq!['\\', 't']
    } else if c as nat == 8 {
        seq!['\\', 'b']
    } else if c as nat == 12 {
        seq!['\\', 'f']
    } else if (c as nat) < 32 {
        seq![
            '\\',
            'u',
            '0',
            '0',
            digest::nibble_char(c as nat / 16),
            digest::nibble_char(c as nat % 16),
        ]
    } else {
        seq![c]
    }
}

/// A text as a JSON string, with its quotes.
pub open spec fn quoted(text: Seq<char>) -> Seq<char> {
    seq!['"'] + text.map_values(|c: char| string_char(c)).flatten() + seq!['"']
}

/// `serde_json::Value::to_string` on a string value: the text between quotes,
/// with quote, backslash and the control characters below the space escaped,
/// those that have a short form by it and the others by four hexadecimal
/// digits; every other character stands for itself.
#[verifier::external_body]
pub(crate) fn quote(text: &str) -> (r: String)
    ensures
        r@ == quoted(text@),
{
    serde_json::Value::from(text).to_string()
}

/// The text of a value that is one.
pub open spec fn as_text(value: Option<JsonModel>) -> Option<Seq<char>> {
    match value {
        Some(JsonModel::Text(text)) => Some(text),
        _ => None,
    }
}

/// The unsigned integer that a value is, if it is one.
pub open spec fn as_unsigned(value: Option<JsonModel>) -> Option<u64> {
    match value {
        Some(JsonModel::Number { unsigned, .. }) => unsigned,
        _ => None,
    }
}

pub fn text_of(value: Option<Json>) -> (r: Option<String>)
    ensures
        r.deep_view() == as_text(json_view(value)),
{
    match value {
        Some(Json::Text(text)) => Some(text),
        _ => None,
    }
}

pub fn unsigned_of(value: Option<Json>) -> (r: Option<u64>)
    ensures
        r == as_unsigned(json_view(value)),
{
    match value {
        Some(Json::Number { unsigned, .. }) => unsigned,
        _ => None,
    }
}

} // verus!
