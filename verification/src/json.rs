//! JSON values, as far as the retry policy and the retry counter read them.
use vstd::prelude::*;

use crate::text;

verus! {

/// A JSON value. Integers are those that a JSON number holds exactly: from
/// `i64::MIN` to `u64::MAX`.
#[derive(Debug)]
pub enum JsonValue {
    /// A string.
    Text(String),
    /// An integer that fits in a `u64`.
    Unsigned(u64),
    /// An integer that fits in an `i64`.
    Signed(i64),
    /// A number with a fraction or an exponent, in the form in which it prints.
    Fraction(String),
    /// `null`, a boolean, an array or an object.
    Other,
}

/// What a [`JsonValue`] holds.
pub enum JsonView {
    Text(Seq<char>),
    Integer(int),
    Fraction(Seq<char>),
    Other,
}

impl View for JsonValue {
    type V = JsonView;

    open spec fn view(&self) -> JsonView {
        match *self {
            JsonValue::Text(s) => JsonView::Text(s@),
            JsonValue::Unsigned(n) => JsonView::Integer(n as int),
            JsonValue::Signed(n) => JsonView::Integer(n as int),
            JsonValue::Fraction(s) => JsonView::Fraction(s@),
            JsonValue::Other => JsonView::Other,
        }
    }
}

/// What an optional value holds.
pub open spec fn view_of(value: Option<JsonValue>) -> Option<JsonView> {
    match value {
        Some(v) => Some(v@),
        None => None,
    }
}

impl JsonView {
    /// The integer that the value is, when it fits in a `u64`.
    pub open spec fn as_u64(self) -> Option<u64> {
        match self {
            JsonView::Integer(n) => if 0 <= n <= u64::MAX {
                Some(n as u64)
            } else {
                None
            },
            _ => None,
        }
    }
}

impl Clone for JsonValue {
    fn clone(&self) -> (res: Self)
        ensures
            res@ == self@,
    {
        match self {
            JsonValue::Text(s) => JsonValue::Text(s.clone()),
            JsonValue::Unsigned(n) => JsonValue::Unsigned(*n),
            JsonValue::Signed(n) => JsonValue::Signed(*n),
            JsonValue::Fraction(s) => JsonValue::Fraction(s.clone()),
            JsonValue::Other => JsonValue::Other,
        }
    }
}

impl JsonValue {
    /// The integer that the value is, when it fits in a `u64`.
    pub fn as_u64(&self) -> (res: Option<u64>)
        ensures
            res == self@.as_u64(),
    {
        match self {
            JsonValue::Unsigned(n) => integer_as_u64(*n as i128),
            JsonValue::Signed(n) => integer_as_u64(*n as i128),
            _ => None,
        }
    }
}

/// `serde_json::Value::as_u64` on the JSON number that holds `n`: the number
/// itself when it lies between zero and `u64::MAX`, `None` when it is negative.
/// The number is made by `serde_json::Number::from_i128`, which has one for every
/// integer from `i64::MIN` to `u64::MAX`.
#[verifier::external_body]
fn integer_as_u64(n: i128) -> (res: Option<u64>)
    requires
        i64::MIN <= n <= u64::MAX,
    ensures
        res == JsonView::Integer(n as int).as_u64(),
{
    serde_json::Value::Number(serde_json::Number::from_i128(n).unwrap()).as_u64()
}

/// `serde_json::Number::to_string` on the JSON number that holds `n`: the integer
/// in base ten, with a leading `-` when it is negative. The number is made by
/// `serde_json::Number::from_i128`, which has one for every integer from
/// `i64::MIN` to `u64::MAX`.
#[verifier::external_body]
pub(crate) fn number_text(n: i128) -> (res: String)
    requires
        i64::MIN <= n <= u64::MAX,
    ensures
        res@ == text::integer_text(n as int),
{
    serde_json::Number::from_i128(n).unwrap().to_string()
}

} // verus!
