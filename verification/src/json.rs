//! JSON values of `serde_json`, as far as the rules of the service speak of them.
//!
//! A [`serde_json::Value`] is opaque here. Two things are said of what it holds: the text it is
//! written as, and what it is compared by.

use serde_json::Value;
use vstd::prelude::*;

verus! {

/// `serde_json::Value`, whose contents are spoken of through [`json_text`] and [`json_key`].
#[verifier::external_type_specification]
#[verifier::external_body]
pub struct ExValue(serde_json::Value);

/// The characters of the compact JSON text that `value` is written as.
pub uninterp spec fn json_text(value: Value) -> Seq<char>;

/// What `value` is compared by: two JSON values are equal exactly when their keys are.
///
/// It is not the text, because the floats `0.0` and `-0.0` are equal and written differently.
pub uninterp spec fn json_key(value: Value) -> Seq<char>;

/// What the rules of the service can tell of a JSON value.
#[verifier::ext_equal]
pub struct JsonView {
    pub text: Seq<char>,
    pub key: Seq<char>,
}

/// The view of a JSON value.
pub open spec fn json_view(value: Value) -> JsonView {
    JsonView { text: json_text(value), key: json_key(value) }
}

/// Calls `serde_json::Value::to_string`, which writes the value as compact JSON. The text is a
/// function of the value alone, and is named [`json_text`].
#[verifier::external_body]
pub(crate) fn value_text(value: &Value) -> (text: String)
    ensures
        text@ == json_text(*value),
{
    value.to_string()
}

/// Calls `==` of `serde_json::Value`. It is an equivalence, since numbers are never NaN, so it
/// tells values apart by a key, which is named [`json_key`].
#[verifier::external_body]
pub(crate) fn value_eq(a: &Value, b: &Value) -> (equal: bool)
    ensures
        equal == (json_key(*a) == json_key(*b)),
{
    a == b
}

/// Calls `serde_json::Value::clone`. The copy is written as the same text and compared by the
/// same key.
#[verifier::external_body]
pub(crate) fn value_clone(value: &Value) -> (copy: Value)
    ensures
        json_text(copy) == json_text(*value),
        json_key(copy) == json_key(*value),
{
    value.clone()
}

} // verus!
