//! The text boundary: parsing input text to a `Json` tree and printing
//! a `Json` tree back to text, through serde_json. These are the
//! trusted items of the library: Verus believes their contracts and
//! does not read their bodies. Both directions are deterministic
//! functions of their argument, so each result is given a name
//! (`parse_of`, `print_of`) that the contracts of the callers use.

use vstd::prelude::*;

use crate::json::JNum;
use crate::json::Json;
use crate::json::JsonV;

verus! {

#[verifier::external_type_specification]
#[verifier::external_body]
pub struct ExValue(serde_json::Value);

#[verifier::external_type_specification]
#[verifier::external_body]
pub struct ExNumber(serde_json::Number);

/// What parsing a text as JSON yields: the parsed tree, or nothing
/// when the text is not JSON.
pub uninterp spec fn parse_of(s: Seq<char>) -> Option<JsonV>;

/// What serializing a JSON tree yields.
pub uninterp spec fn print_of(j: JsonV) -> Seq<char>;

/// Conversion half of `parse_json`: a serde_json number as the
/// library's number — the exact integer where it fits, else the
/// decimal literal text.
#[verifier::external_body]
fn jnum_of_number(n: serde_json::Number) -> JNum {
    match n.as_i64() {
        Some(i) => JNum::Int(i),
        None => match n.as_u64() {
            Some(u) => JNum::Big(u),
            None => JNum::Text(format!("{}", n)),
        },
    }
}

/// Conversion half of `print_json`: the library's number back as a
/// serde_json number. Literal text that is not a JSON number falls
/// back to zero; parsing never produces such a value, so this arm is
/// reachable only from a hand-built `JNum::Text`.
#[verifier::external_body]
fn number_of_jnum(n: JNum) -> serde_json::Number {
    match n {
        JNum::Int(i) => serde_json::Number::from(i),
        JNum::Big(u) => serde_json::Number::from(u),
        JNum::Text(s) => match serde_json::from_str::<serde_json::Number>(&s) {
            Ok(x) => x,
            Err(_) => serde_json::Number::from(0i64),
        },
    }
}

/// Conversion half of `parse_json`: a serde_json tree, element for
/// element and entry for entry, as the library's `Json`.
#[verifier::external_body]
fn value_to_json(v: serde_json::Value) -> Json {
    match v {
        serde_json::Value::Null => Json::Null,
        serde_json::Value::Bool(b) => Json::Bool(b),
        serde_json::Value::Number(n) => Json::Num(jnum_of_number(n)),
        serde_json::Value::String(s) => Json::Str(s),
        serde_json::Value::Array(a) => Json::Arr(a.into_iter().map(value_to_json).collect()),
        serde_json::Value::Object(m) => Json::Obj(
            m.into_iter().map(|(k, x)| (k, value_to_json(x))).collect(),
        ),
    }
}

/// Conversion half of `print_json`: the library's `Json`, element for
/// element and entry for entry, as a serde_json tree.
#[verifier::external_body]
fn json_to_value(j: Json) -> serde_json::Value {
    match j {
        Json::Null => serde_json::Value::Null,
        Json::Bool(b) => serde_json::Value::Bool(b),
        Json::Num(n) => serde_json::Value::Number(number_of_jnum(n)),
        Json::Str(s) => serde_json::Value::String(s),
        Json::Arr(v) => serde_json::Value::Array(v.into_iter().map(json_to_value).collect()),
        Json::Obj(v) => serde_json::Value::Object(
            v.into_iter().map(|(k, x)| (k, json_to_value(x))).collect(),
        ),
    }
}

/// Relies on serde_json::from_str::<Value>: whether and how a text
/// parses depends on the text alone. The parsed tree is converted to
/// the library's `Json`; the error is returned as its message.
#[verifier::external_body]
pub fn parse_json(s: &str) -> (r: Result<Json, String>)
    ensures
        match r {
            Ok(j) => parse_of(s@) == Some(j@),
            Err(_) => parse_of(s@) is None,
        },
{
    match serde_json::from_str::<serde_json::Value>(s) {
        Ok(v) => Ok(value_to_json(v)),
        Err(e) => Err(format!("{}", e)),
    }
}

/// Relies on serde_json::to_string: the serialized text depends on the
/// value alone (object keys are printed in sorted order), and
/// serializing a `Value` never fails — its map keys are strings, its
/// numbers are finite, and the writer is an in-memory buffer, while
/// `to_string` reports an error only for a failing `Serialize` impl or
/// a non-string map key.
#[verifier::external_body]
pub fn print_json(j: Json) -> (r: Result<String, String>)
    ensures
        r is Ok,
        r matches Ok(s) ==> s@ == print_of(j@),
{
    match serde_json::to_string(&json_to_value(j)) {
        Ok(s) => Ok(s),
        Err(e) => Err(format!("{}", e)),
    }
}

} // verus!
