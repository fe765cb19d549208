//! JSON values as plain data.

use crate::decimal::{
    read_signed, read_unsigned, signed_decimal, signed_digits, signed_of, unsigned_of,
};
use crate::double::{nearest_unsigned, round_unsigned, truncated};
use crate::text::{is_blank, opt_view, same, trim, trimmed};
use vstd::prelude::*;

verus! {

/// A JSON number: its exact values as 64-bit integers where it has them, the bits of the nearest
/// binary64 number and the shortest numeral that denotes it.
#[derive(Debug)]
pub struct JsonNumber {
    pub signed: Option<i64>,
    pub unsigned: Option<u64>,
    pub float_bits: Option<u64>,
    pub float_text: Option<String>,
}

/// A JSON value.
#[derive(Debug)]
pub enum Json {
    Null,
    Bool(bool),
    Number(JsonNumber),
    Text(String),
    Array(Vec<Json>),
    Object(Vec<(String, Json)>),
}

/// A value parsed by `serde_json`.
#[verifier::external_type_specification]
#[verifier::external_body]
pub struct ExValue(serde_json::Value);

/// What `serde_json` reads from a text, where the text is one JSON document.
pub uninterp spec fn json_value(text: Seq<char>) -> Option<serde_json::Value>;

/// The plain data that a value of `serde_json` holds.
pub uninterp spec fn json_data(value: serde_json::Value) -> Json;

/// `serde_json::from_str::<serde_json::Value>`: the value that the text denotes, `None` where the
/// text is not a JSON document.
#[verifier::external_body]
fn read_value(text: &str) -> (r: Option<serde_json::Value>)
    ensures
        r == json_value(text@),
{
    serde_json::from_str::<serde_json::Value>(text).ok()
}

/// Takes a value of `serde_json` apart: the same value as plain data, variant by variant, with the
/// members of an object in the order of `serde_json::Map`.
#[verifier::external_body]
fn data_of(value: serde_json::Value) -> (r: Json)
    ensures
        r == json_data(value),
{
    match value {
        serde_json::Value::Null => Json::Null,
        serde_json::Value::Bool(b) => Json::Bool(b),
        serde_json::Value::Number(n) => Json::Number(JsonNumber {
            signed: n.as_i64(),
            unsigned: n.as_u64(),
            float_bits: n.as_f64().map(|v| v.to_bits()),
            float_text: n.as_f64().map(|v| v.to_string()),
        }),
        serde_json::Value::String(s) => Json::Text(s),
        serde_json::Value::Array(items) => Json::Array(items.into_iter().map(data_of).collect()),
        serde_json::Value::Object(members) =>
            Json::Object(members.into_iter().map(|(k, v)| (k, data_of(v))).collect()),
    }
}

/// The JSON document that a text holds.
pub open spec fn parsed_json(text: Seq<char>) -> Option<Json> {
    match json_value(text) {
        Some(v) => Some(json_data(v)),
        None => None,
    }
}

/// Reads a JSON document.
pub fn parse_json(text: &str) -> (r: Option<Json>)
    ensures
        r == parsed_json(text@),
{
    match read_value(text) {
        Some(v) => Some(data_of(v)),
        None => None,
    }
}

/// What `serde_json` reads from bytes, where they are one JSON document in UTF-8.
pub uninterp spec fn json_value_of_bytes(bytes: Seq<u8>) -> Option<serde_json::Value>;

/// `serde_json::from_slice::<serde_json::Value>`: the value that the bytes denote, `None` where
/// they are not a JSON document.
#[verifier::external_body]
fn read_value_bytes(bytes: &Vec<u8>) -> (r: Option<serde_json::Value>)
    ensures
        r == json_value_of_bytes(bytes@),
{
    serde_json::from_slice::<serde_json::Value>(bytes).ok()
}

/// The JSON document that bytes hold.
pub open spec fn parsed_json_bytes(bytes: Seq<u8>) -> Option<Json> {
    match json_value_of_bytes(bytes) {
        Some(v) => Some(json_data(v)),
        None => None,
    }
}

/// Reads a JSON document.
pub fn parse_json_bytes(bytes: &Vec<u8>) -> (r: Option<Json>)
    ensures
        r == parsed_json_bytes(bytes@),
{
    match read_value_bytes(bytes) {
        Some(v) => Some(data_of(v)),
        None => None,
    }
}

/// A member of a JSON object.
pub uninterp spec fn json_member(
    value: serde_json::Value,
    name: Seq<char>,
) -> Option<serde_json::Value>;

/// `serde_json::Value::get` with a name: that member, `None` where the value is no object or has no
/// such member.
#[verifier::external_body]
fn member_of<'a>(value: &'a serde_json::Value, name: &str) -> (r: Option<&'a serde_json::Value>)
    ensures
        (match r {
            Some(v) => Some(*v),
            None => None,
        }) == json_member(*value, name@),
{
    value.get(name)
}

/// The text of a JSON value.
pub uninterp spec fn value_text(value: serde_json::Value) -> Seq<char>;

/// `serde_json::Value::to_string`: the value as JSON text.
#[verifier::external_body]
fn text_of(value: &serde_json::Value) -> (r: String)
    ensures
        r@ == value_text(*value),
{
    value.to_string()
}

/// The JSON text of a member of the document that bytes hold; none where they hold none.
pub open spec fn shown_member(bytes: Seq<u8>, name: Seq<char>) -> Option<Seq<char>> {
    match json_value_of_bytes(bytes) {
        Some(v) => match json_member(v, name) {
            Some(member) => Some(value_text(member)),
            None => None,
        },
        None => None,
    }
}

/// The JSON text of a member of the document that bytes hold.
pub fn member_of_bytes(bytes: &Vec<u8>, name: &str) -> (r: Option<String>)
    ensures
        crate::text::opt_view(r) == shown_member(bytes@, name@),
{
    match read_value_bytes(bytes) {
        Some(v) => match member_of(&v, name) {
            Some(member) => Some(text_of(member)),
            None => None,
        },
        None => None,
    }
}

/// The bits of the binary64 number nearest to the one that a text denotes, where it denotes one.
pub uninterp spec fn double_of_text(text: Seq<char>) -> Option<u64>;

/// `str::parse` to a binary64 number: its bits, `None` where the text is no number. The null value
/// holds no number; it stands in front for the type of the number alone.
#[verifier::external_body]
pub(crate) fn parse_double(text: &str) -> (r: Option<u64>)
    ensures
        r == double_of_text(text@),
{
    serde_json::Value::Null.as_f64().or_else(|| text.parse().ok()).map(|v| v.to_bits())
}

/// The bits of a number, or of the number that a text denotes.
pub open spec fn loose_double(j: Option<Json>) -> Option<u64> {
    match j {
        Some(Json::Number(n)) => n.float_bits,
        Some(Json::Text(s)) => double_of_text(s@),
        _ => None,
    }
}

/// The bits of a number, or of the number that a text denotes.
pub fn double_in(j: Option<&Json>) -> (r: Option<u64>)
    ensures
        r == loose_double(deref(j)),
{
    match j {
        Some(Json::Number(n)) => n.float_bits,
        Some(Json::Text(s)) => parse_double(s.as_str()),
        _ => None,
    }
}

/// A number as a signed integer, or the integer that a text denotes.
pub open spec fn loose_integer(j: Option<Json>) -> Option<i64> {
    match j {
        Some(Json::Text(s)) => signed_of(s@),
        Some(v) => as_integer(v),
        None => None,
    }
}

/// A number as a signed integer, or the integer that a text denotes.
pub fn integer_in(j: Option<&Json>) -> (r: Option<i64>)
    ensures
        r == loose_integer(deref(j)),
{
    match j {
        Some(Json::Text(s)) => read_signed(s.as_str()),
        Some(v) => integer_of(v),
        None => None,
    }
}

/// A number as an unsigned integer, exactly where it is one and else rounded, or the integer that
/// a text denotes.
pub open spec fn loose_unsigned(j: Option<Json>) -> Option<u64> {
    match j {
        Some(Json::Number(n)) => match n.unsigned {
            Some(v) => Some(v),
            None => match n.float_bits {
                Some(bits) => nearest_unsigned(bits),
                None => None,
            },
        },
        Some(Json::Text(s)) => unsigned_of(s@),
        _ => None,
    }
}

/// A number as an unsigned integer, or the integer that a text denotes.
pub fn unsigned_in(j: Option<&Json>) -> (r: Option<u64>)
    ensures
        r == loose_unsigned(deref(j)),
{
    match j {
        Some(Json::Number(n)) => match n.unsigned {
            Some(v) => Some(v),
            None => match n.float_bits {
                Some(bits) => round_unsigned(bits),
                None => None,
            },
        },
        Some(Json::Text(s)) => read_unsigned(s.as_str()),
        _ => None,
    }
}

/// A truth value; false for anything else.
pub open spec fn is_true(j: Option<Json>) -> bool {
    match j {
        Some(Json::Bool(b)) => b,
        _ => false,
    }
}

/// A truth value; false for anything else.
pub fn truth_in(j: Option<&Json>) -> (r: bool)
    ensures
        r == is_true(deref(j)),
{
    match j {
        Some(Json::Bool(b)) => *b,
        _ => false,
    }
}

/// A text without white space around it, where anything is left of it.
pub open spec fn filled_text(j: Option<Json>) -> Option<Seq<char>> {
    match j {
        Some(Json::Text(s)) => if trimmed(s@).len() > 0 {
            Some(trimmed(s@))
        } else {
            None
        },
        _ => None,
    }
}

/// A text without white space around it, where anything is left of it.
pub fn filled_text_in(j: Option<&Json>) -> (r: Option<String>)
    ensures
        opt_view(r) == filled_text(deref(j)),
{
    match j {
        Some(Json::Text(s)) => if is_blank(s.as_str()) {
            None
        } else {
            Some(trim(s.as_str()))
        },
        _ => None,
    }
}

/// The text of a number: the decimal numeral of an integer, else the shortest numeral of the
/// nearest binary64 number.
pub open spec fn number_text(n: JsonNumber) -> Option<Seq<char>> {
    match n.signed {
        Some(v) => Some(signed_digits(v as int)),
        None => opt_view(n.float_text),
    }
}

fn text_of_number(n: &JsonNumber) -> (r: Option<String>)
    ensures
        opt_view(r) == number_text(*n),
{
    match n.signed {
        Some(v) => Some(signed_decimal(v)),
        None => match &n.float_text {
            Some(text) => Some(text.as_str().to_owned()),
            None => None,
        },
    }
}

/// A text as it is, or the text of a number.
pub open spec fn text_or_number(j: Option<Json>) -> Option<Seq<char>> {
    match j {
        Some(Json::Text(s)) => Some(s@),
        Some(Json::Number(n)) => number_text(n),
        _ => None,
    }
}

/// A text as it is, or the text of a number.
pub fn text_or_number_in(j: Option<&Json>) -> (r: Option<String>)
    ensures
        opt_view(r) == text_or_number(deref(j)),
{
    match j {
        Some(Json::Text(s)) => Some(s.as_str().to_owned()),
        Some(Json::Number(n)) => text_of_number(n),
        _ => None,
    }
}

/// A text without white space around it or the text of a number, where it is not empty.
pub open spec fn scalar_text(j: Option<Json>) -> Option<Seq<char>> {
    match j {
        Some(Json::Text(s)) => filled_text(j),
        Some(Json::Number(n)) => match number_text(n) {
            Some(t) => if t.len() > 0 {
                Some(t)
            } else {
                None
            },
            None => None,
        },
        _ => None,
    }
}

/// A text without white space around it or the text of a number, where it is not empty.
pub fn scalar_text_in(j: Option<&Json>) -> (r: Option<String>)
    ensures
        opt_view(r) == scalar_text(deref(j)),
{
    match j {
        Some(Json::Text(_)) => filled_text_in(j),
        Some(Json::Number(n)) => match text_of_number(n) {
            Some(t) => {
                proof {
                    reveal_strlit("");
                }
                if same(t.as_str(), "") {
                    None
                } else {
                    assert(t@.len() > 0) by {
                        if t@.len() == 0 {
                            assert(t@ =~= ""@);
                        }
                    }
                    Some(t)
                }
            },
            None => None,
        },
        _ => None,
    }
}

/// The member that goes by the first name, else the one that goes by the second.
pub open spec fn field2(j: Json, first: Seq<char>, second: Seq<char>) -> Option<Json> {
    or(field(j, first), field(j, second))
}

/// The items of an array.
pub open spec fn items(j: Option<Json>) -> Option<Seq<Json>> {
    match j {
        Some(Json::Array(v)) => Some(v@),
        _ => None,
    }
}

/// The first member named `key`.
pub open spec fn member(members: Seq<(String, Json)>, key: Seq<char>) -> Option<Json>
    decreases members.len(),
{
    if members.len() == 0 {
        None
    } else if members[0].0@ == key {
        Some(members[0].1)
    } else {
        member(members.skip(1), key)
    }
}

/// The member named `key` of an object; nothing else has members.
pub open spec fn field(j: Json, key: Seq<char>) -> Option<Json> {
    match j {
        Json::Object(members) => member(members@, key),
        _ => None,
    }
}

/// The member named `key` of an optional value.
pub open spec fn sub_field(j: Option<Json>, key: Seq<char>) -> Option<Json> {
    match j {
        Some(v) => field(v, key),
        None => None,
    }
}

/// The text of a string value.
pub open spec fn as_text(j: Json) -> Option<Seq<char>> {
    match j {
        Json::Text(s) => Some(s@),
        _ => None,
    }
}

/// The text of an optional string value.
pub open spec fn opt_text(j: Option<Json>) -> Option<Seq<char>> {
    match j {
        Some(v) => as_text(v),
        None => None,
    }
}

/// The text of the member named `key`.
pub open spec fn text_field(j: Json, key: Seq<char>) -> Option<Seq<char>> {
    opt_text(field(j, key))
}

/// An optional value where it is an object.
pub open spec fn opt_object(j: Option<Json>) -> Option<Json> {
    match j {
        Some(v) => if v is Object {
            Some(v)
        } else {
            None
        },
        None => None,
    }
}

/// The first of two options that holds something.
pub open spec fn or<T>(a: Option<T>, b: Option<T>) -> Option<T> {
    match a {
        Some(_) => a,
        None => b,
    }
}

/// The value behind an optional reference.
pub open spec fn deref(o: Option<&Json>) -> Option<Json> {
    match o {
        Some(v) => Some(*v),
        None => None,
    }
}

impl Json {
    /// The member named `key`.
    pub fn get(&self, key: &str) -> (r: Option<&Json>)
        ensures
            deref(r) == field(*self, key@),
    {
        match self {
            Json::Object(members) => {
                let mut i: usize = 0;
                assert(members@.skip(0) =~= members@);
                while i < members.len()
                    invariant
                        i <= members@.len(),
                        field(*self, key@) == member(members@.skip(i as int), key@),
                    decreases members@.len() - i,
                {
                    assert(members@.skip(i as int).skip(1) =~= members@.skip(i + 1));
                    assert(members@.skip(i as int)[0] == members@[i as int]);
                    if same(members[i].0.as_str(), key) {
                        return Some(&members[i].1);
                    }
                    i += 1;
                }
                None
            },
            _ => None,
        }
    }

    /// The member that goes by the first name, else the one that goes by the second.
    pub fn get2(&self, first: &str, second: &str) -> (r: Option<&Json>)
        ensures
            deref(r) == field2(*self, first@, second@),
    {
        match self.get(first) {
            Some(v) => Some(v),
            None => self.get(second),
        }
    }

    /// The text of a string value.
    pub fn as_str(&self) -> (r: Option<&str>)
        ensures
            crate::text::opt_str(r) == as_text(*self),
    {
        match self {
            Json::Text(s) => Some(s.as_str()),
            _ => None,
        }
    }

    /// Whether the value is an object.
    pub fn is_object(&self) -> (r: bool)
        ensures
            r == (*self is Object),
    {
        matches!(self, Json::Object(_))
    }

    /// The text of the member named `key`.
    pub fn get_str(&self, key: &str) -> (r: Option<&str>)
        ensures
            crate::text::opt_str(r) == text_field(*self, key@),
    {
        match self.get(key) {
            Some(v) => v.as_str(),
            None => None,
        }
    }

    /// The member named `key` where it is an object.
    pub fn get_object(&self, key: &str) -> (r: Option<&Json>)
        ensures
            deref(r) == opt_object(field(*self, key@)),
    {
        match self.get(key) {
            Some(v) => if v.is_object() {
                Some(v)
            } else {
                None
            },
            None => None,
        }
    }
}

/// A number as a 64-bit integer: exactly where it is one, else its binary64 value cut to an integer.
pub open spec fn as_integer(j: Json) -> Option<i64> {
    match j {
        Json::Number(n) => match n.signed {
            Some(v) => Some(v),
            None => match n.float_bits {
                Some(bits) => Some(truncated(bits) as i64),
                None => None,
            },
        },
        _ => None,
    }
}

/// A number as a 64-bit integer.
pub fn integer_of(j: &Json) -> (r: Option<i64>)
    ensures
        r == as_integer(*j),
{
    match j {
        Json::Number(n) => match n.signed {
            Some(v) => Some(v),
            None => match n.float_bits {
                Some(bits) => Some(crate::double::truncate(bits)),
                None => None,
            },
        },
        _ => None,
    }
}

} // verus!
