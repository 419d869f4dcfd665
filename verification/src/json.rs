//! Structured values, which the `serde_json` crate holds.
//!
//! The items here are not proved: each states what this library relies on
//! from that crate. A structured value passes through the library unread.

use vstd::prelude::*;
use serde_json::Value;

verus! {

/// `serde_json::Value`, a structured value. Nothing of its inside is visible
/// here.
#[verifier::external_type_specification]
#[verifier::external_body]
pub struct ExValue(Value);

/// The structured value that `serde_json::to_value` makes of `fields`, or
/// `None` if it fails.
pub uninterp spec fn value_of_fields(fields: Option<Value>) -> Option<Value>;

/// Calls `serde_json::to_value` on the extra fields of a result, and drops
/// the reason if the call fails. What it returns is a function of `fields`
/// alone.
#[verifier::external_body]
pub(crate) fn to_value(fields: &Option<Value>) -> (r: Option<Value>)
    ensures
        r == value_of_fields(*fields),
{
    serde_json::to_value(fields).ok()
}

} // verus!
