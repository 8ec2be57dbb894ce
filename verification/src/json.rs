//! Reading a model descriptor out of configuration JSON.
//!
//! The parsing itself is serde_json's work, behind trusted wrappers; the
//! verified code walks the parsed value, maps the configuration field
//! names onto the descriptor, and enforces the positivity invariants.

use vstd::prelude::*;
use crate::config::ModelInfo;
use crate::error::Error;

verus! {

/// serde_json's parsed JSON tree, carried opaquely through the verified
/// code.
#[verifier::external_type_specification]
#[verifier::external_body]
pub struct ExJsonValue(serde_json::Value);

/// Relies on serde_json::from_str::<Value>: parses JSON text into a
/// value tree; a parse error is rendered to text here.
#[verifier::external_body]
fn parse_json_text(text: &str) -> (r: Result<serde_json::Value, String>) {
    match serde_json::from_str::<serde_json::Value>(text) {
        Ok(v) => Ok(v),
        Err(e) => Err(format!("{}", e)),
    }
}

/// Relies on serde_json::Value::get: looks a key up in a JSON object;
/// `None` when the value is no object or has no such key.
#[verifier::external_body]
fn json_get<'a>(v: &'a serde_json::Value, key: &str) -> (r: Option<&'a serde_json::Value>) {
    v.get(key)
}

/// Relies on serde_json::Value::as_u64: the value as an unsigned
/// integer, if it is one.
#[verifier::external_body]
fn json_as_u64(v: &serde_json::Value) -> (r: Option<u64>) {
    v.as_u64()
}

/// Relies on serde_json::Value::as_str: the value as owned text, if it
/// is a string.
#[verifier::external_body]
fn json_as_string(v: &serde_json::Value) -> (r: Option<String>) {
    match v.as_str() {
        Some(s) => Some(s.to_string()),
        None => None,
    }
}

/// Validation of one raw count: exactly the integers from 1 up to the
/// machine's size limit pass, as that size; everything else (a missing
/// or non-integer field, zero, or an oversized count) is a
/// `ConfigError`.
pub fn checked_count(n: Option<u64>) -> (r: Result<usize, Error>)
    ensures
        r is Ok <==> (n matches Some(v) && 1 <= v <= usize::MAX),
        r matches Ok(c) ==> (n matches Some(v) && c == v),
        r matches Err(e) ==> e is ConfigError,
{
    match n {
        Some(v) => {
            if v == 0 {
                Err(Error::ConfigError("a model count field is zero".to_string()))
            } else if v > usize::MAX as u64 {
                Err(
                    Error::ConfigError(
                        "a model count field exceeds the machine's sizes".to_string(),
                    ),
                )
            } else {
                Ok(v as usize)
            }
        },
        None => Err(
            Error::ConfigError("a model count field is not an unsigned integer".to_string()),
        ),
    }
}

/// One named count field of the configuration object, read through the
/// trusted getters and validated by `checked_count`.
fn read_count_field(v: &serde_json::Value, key: &str) -> (r: Result<usize, Error>)
    ensures
        r matches Ok(n) ==> n >= 1,
        r matches Err(e) ==> e is ConfigError,
{
    match json_get(v, key) {
        Some(field) => checked_count(json_as_u64(field)),
        None => Err(Error::ConfigError("a model count field is missing".to_string())),
    }
}

/// Builds a model descriptor from the text of a model directory's
/// configuration JSON. The configuration names the hidden size
/// `d_model` and the intermediate size `d_ff`; `model_type`,
/// `num_experts` and `num_layers` carry their own names. Malformed
/// JSON, a missing or non-integer field, and a count of zero are all
/// rejected with `ConfigError`; a returned descriptor always satisfies
/// the positivity invariant `wf`.
pub fn model_info_from_config_json(text: &str) -> (r: Result<ModelInfo, Error>)
    ensures
        r matches Ok(m) ==> m.wf(),
        r matches Err(e) ==> e is ConfigError,
{
    let value = match parse_json_text(text) {
        Ok(v) => v,
        Err(msg) => {
            return Err(Error::ConfigError(msg));
        },
    };
    let model_type = match json_get(&value, "model_type") {
        Some(field) => match json_as_string(field) {
            Some(s) => s,
            None => {
                return Err(Error::ConfigError("model_type is not a string".to_string()));
            },
        },
        None => {
            return Err(Error::ConfigError("model_type is missing".to_string()));
        },
    };
    let num_experts = match read_count_field(&value, "num_experts") {
        Ok(n) => n,
        Err(e) => {
            return Err(e);
        },
    };
    let hidden_size = match read_count_field(&value, "d_model") {
        Ok(n) => n,
        Err(e) => {
            return Err(e);
        },
    };
    let intermediate_size = match read_count_field(&value, "d_ff") {
        Ok(n) => n,
        Err(e) => {
            return Err(e);
        },
    };
    let num_layers = match read_count_field(&value, "num_layers") {
        Ok(n) => n,
        Err(e) => {
            return Err(e);
        },
    };
    Ok(ModelInfo { model_type, num_experts, hidden_size, intermediate_size, num_layers })
}

} // verus!
