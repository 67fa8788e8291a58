//! Fresh identifiers and wall-clock stamps. Both depend on the clock and on
//! randomness, so nothing is promised of their content beyond what the
//! generating crates document.

use vstd::prelude::*;

verus! {

/// Calls `sparkid::SparkId::new()` and renders it: a fresh, time-sortable id of
/// 21 Base58 characters.
#[verifier::external_body]
pub fn new_id() -> (r: String)
    ensures
        r@.len() == 21,
{
    sparkid::SparkId::new().to_string()
}

/// Calls `chrono::Local::now()` and formats it as `%Y-%m-%d %H:%M`. The value
/// depends on the clock; its content is not stated.
#[verifier::external_body]
pub(crate) fn now_minutes() -> (r: String) {
    chrono::Local::now().format("%Y-%m-%d %H:%M").to_string()
}

/// Calls `chrono::Local::now()` and formats it as `%Y-%m-%d %H:%M:%S`. The value
/// depends on the clock; its content is not stated.
#[verifier::external_body]
pub(crate) fn now_seconds() -> (r: String) {
    chrono::Local::now().format("%Y-%m-%d %H:%M:%S").to_string()
}

/// Calls `uuid::Uuid::new_v4()` and renders it in simple form: 32 lowercase
/// hex digits of a random version-4 uuid.
#[verifier::external_body]
pub(crate) fn random_hex32() -> (r: String)
    ensures
        r@.len() == 32,
        forall|i: int| 0 <= i < 32 ==> ('0' <= #[trigger] r@[i] <= '9' || 'a' <= r@[i] <= 'f'),
{
    uuid::Uuid::new_v4().simple().to_string()
}

} // verus!
