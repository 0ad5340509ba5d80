//! Time, fresh identifiers and day arithmetic.
use vstd::prelude::*;

verus! {

/// Milliseconds in one day.
pub const MS_PER_DAY: u64 = 86400000;

/// The UTC calendar day (days since the Unix epoch) of a time in milliseconds.
pub open spec fn day_of(ms: u64) -> u64 {
    (ms / MS_PER_DAY) as u64
}

/// The UTC calendar day of a time in milliseconds since the Unix epoch.
pub fn day_of_millis(ms: u64) -> (r: u64)
    ensures
        r == day_of(ms),
{
    ms / MS_PER_DAY
}

/// Relies on `chrono::Utc::now`: the current time in milliseconds since the Unix epoch.
/// Nothing is known of its value.
#[verifier::external_body]
pub(crate) fn now_millis() -> (r: u64) {
    chrono::Utc::now().timestamp_millis() as u64
}

/// Relies on `uuid::Uuid::new_v4`: a random identifier. Nothing is known of its value.
#[verifier::external_body]
pub(crate) fn fresh_id() -> (r: u128) {
    uuid::Uuid::new_v4().as_u128()
}

} // verus!
