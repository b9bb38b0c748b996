//! Bridges to the platform: the wall clock and identifier generation.
use vstd::prelude::*;

verus! {

/// Relies on `time::OffsetDateTime::now_utc` and `unix_timestamp`: the current
/// wall-clock moment, carried as whole seconds since the Unix epoch. Nothing
/// can be promised of a clock reading, so no contract is stated.
#[verifier::external_body]
pub(crate) fn now_unix() -> i64 {
    time::OffsetDateTime::now_utc().unix_timestamp()
}

/// Relies on `uuid::Uuid::new_v4` and `as_u128`: a freshly drawn random
/// version-4 UUID, carried as its 128-bit value. The draw is random, so
/// nothing is promised of the result; in particular a collision with an
/// earlier draw, while astronomically unlikely, is not ruled out here.
#[verifier::external_body]
pub(crate) fn fresh_id() -> u128 {
    uuid::Uuid::new_v4().as_u128()
}

} // verus!
