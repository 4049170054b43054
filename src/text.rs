use std::str::FromStr;
use vstd::prelude::*;

use crate::value::{number_finite, JsonModel, JsonNumber, JsonValue, NumberModel};

verus! {

#[verifier::external_type_specification]
#[verifier::external_body]
pub struct ExJsonValue(serde_json::Value);

/// What serde_json's number parser makes of a text: `None` where it refuses it.
pub uninterp spec fn number_parse(s: Seq<char>) -> Option<NumberModel>;

/// The text that serde_json writes for the finite float with these bits.
pub uninterp spec fn float_text(bits: u64) -> Seq<char>;

/// The JSON text that serde_json writes for a value.
pub uninterp spec fn json_text(v: JsonModel) -> Seq<char>;

/// The `Debug` rendering of a list of serde_json values.
pub uninterp spec fn json_list_debug_text(a: Seq<JsonModel>) -> Seq<char>;

pub open spec fn digit_char(d: nat) -> char
    recommends
        d < 10,
{
    seq!['0', '1', '2', '3', '4', '5', '6', '7', '8', '9'][d as int]
}

/// A natural number in decimal, without leading zeros.
pub open spec fn decimal_text(n: nat) -> Seq<char>
    decreases n,
{
    if n < 10 {
        seq![digit_char(n)]
    } else {
        decimal_text(n / 10).push(digit_char(n % 10))
    }
}

/// An integer in decimal, with a leading `-` when it is negative.
pub open spec fn signed_decimal_text(i: int) -> Seq<char> {
    if i < 0 {
        seq!['-'] + decimal_text((-i) as nat)
    } else {
        decimal_text(i as nat)
    }
}

/// The text of a number: integers in decimal, floats as serde_json writes them.
pub open spec fn number_text(n: NumberModel) -> Seq<char> {
    match n {
        NumberModel::PosInt(u) => decimal_text(u as nat),
        NumberModel::NegInt(i) => signed_decimal_text(i as int),
        NumberModel::Float(b) => float_text(b),
    }
}

/// Relies on `serde_json::Number::from_str` to parse a number literal, and on its accessors
/// to tell the integer kinds from a float. serde_json holds a float only where it is finite.
#[verifier::external_body]
pub(crate) fn parse_number(s: &str) -> (r: Option<JsonNumber>)
    ensures
        match r {
            Some(n) => number_parse(s@) == Some(n@) && number_finite(n@),
            None => number_parse(s@) is None,
        },
{
    let n = serde_json::Number::from_str(s).ok()?;
    Some(match (n.as_u64(), n.as_i64(), n.as_f64()) {
        (Some(u), _, _) => JsonNumber::PosInt(u),
        (None, Some(i), _) => JsonNumber::NegInt(i),
        (None, None, f) => JsonNumber::float(f.map_or(0, |f| f.to_bits()), n),
    })
}

/// Relies on `serde_json::Number`'s `Display`: itoa for integers, the float writer otherwise.
#[verifier::external_body]
pub(crate) fn render_number(n: &JsonNumber) -> (r: String)
    ensures
        match n@ {
            NumberModel::PosInt(u) => r@ == decimal_text(u as nat),
            NumberModel::NegInt(i) => r@ == signed_decimal_text(i as int),
            NumberModel::Float(b) => r@ == float_text(b),
        },
{
    to_serde_number(n).to_string()
}

/// Relies on `serde_json::Value`'s `Display`, which writes compact JSON text.
#[verifier::external_body]
pub(crate) fn render_json(v: &JsonValue) -> (r: String)
    ensures
        r@ == json_text(v@),
{
    to_serde_value(v).to_string()
}

/// Relies on `serde_json::Value`'s `Debug`, applied to each value of the list.
#[verifier::external_body]
pub(crate) fn render_json_list(a: &Vec<JsonValue>) -> (r: String)
    ensures
        r@ == json_list_debug_text(crate::value::json_seq_view(a@)),
{
    format!("{:?}", a.iter().map(to_serde_value).collect::<Vec<serde_json::Value>>())
}

/// Relies on `serde_json::Number`'s `From<u64>` and `From<i64>` for an integer; a float is
/// the number that serde_json parsed. Nothing is claimed of the result.
#[verifier::external_body]
fn to_serde_number(n: &JsonNumber) -> serde_json::Number {
    match n {
        JsonNumber::PosInt(u) => serde_json::Number::from(*u),
        JsonNumber::NegInt(i) => serde_json::Number::from(*i),
        JsonNumber::Float(f) => f.raw().clone(),
    }
}

/// Relies on serde_json's `Value` variants and the `FromIterator` of its `Map`, to build its
/// value one variant for one for the renderers above. Nothing is claimed of the result.
#[verifier::external_body]
fn to_serde_value(v: &JsonValue) -> serde_json::Value {
    match v {
        JsonValue::Null => serde_json::Value::Null,
        JsonValue::Bool(b) => serde_json::Value::Bool(*b),
        JsonValue::Number(n) => serde_json::Value::Number(to_serde_number(n)),
        JsonValue::String(s) => serde_json::Value::String(s.clone()),
        JsonValue::Array(a) => serde_json::Value::Array(a.iter().map(to_serde_value).collect()),
        JsonValue::Object(o) => serde_json::Value::Object(
            o.iter().map(|(k, x)| (k.clone(), to_serde_value(x))).collect(),
        ),
    }
}

/// Relies on the `ToString` of `usize`, which writes it in decimal.
#[verifier::external_body]
pub(crate) fn index_name(i: usize) -> (r: String)
    ensures
        r@ == decimal_text(i as nat),
{
    i.to_string()
}

} // verus!
