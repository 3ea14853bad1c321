//! The two points where the store touches the outside world: the clock and
//! the random identifier source. Nothing is promised of either value; every
//! caller states what holds whatever comes back.

use vstd::prelude::*;

verus! {

/// Relies on chrono's `Utc::now`: the current wall-clock time in unix
/// seconds. The value depends on the clock, so nothing is promised of it.
#[verifier::external_body]
pub(crate) fn now_unix() -> i64 {
    chrono::Utc::now().timestamp()
}

/// Relies on uuid's `Uuid::new_v4`: a random version-4 identifier, taken as
/// its 128-bit value. The value is random, so nothing is promised of it.
#[verifier::external_body]
pub(crate) fn random_id() -> u128 {
    uuid::Uuid::new_v4().as_u128()
}

} // verus!
