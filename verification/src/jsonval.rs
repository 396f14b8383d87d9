//! Trusted declarations for the JSON values that open-ended events carry.

use vstd::prelude::*;

verus! {

#[verifier::external_type_specification]
#[verifier::external_body]
pub struct ExValue(serde_json::Value);

/// Relies on serde_json::Value::get and serde_json::Value::as_u64: the
/// `player_id` field of `v` read as an unsigned integer, if `v` is an object
/// with such a field. The value is opaque here, so nothing is promised of
/// which outcome comes back; callers handle every one.
#[verifier::external_body]
pub(crate) fn json_player_id(v: &serde_json::Value) -> (r: Option<u64>) {
    v.get("player_id").and_then(serde_json::Value::as_u64)
}

} // verus!
