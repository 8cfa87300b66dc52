//! The two environment values the store consumes: the wall clock and fresh
//! identifiers.  Both calls go to outside crates and are trusted; every
//! caller states what holds of its own result whatever value came back.

use vstd::prelude::*;

verus! {

/// Relies on chrono's `Utc::now` and `DateTime::timestamp_millis`: the
/// current time as milliseconds since the Unix epoch.  `Utc::now` builds the
/// instant from a duration measured since the epoch, so the reading is never
/// negative (the call itself aborts if the system clock is set before the
/// epoch).  Nothing more is assumed: readings may repeat or go backwards
/// between calls.
#[verifier::external_body]
pub fn now_millis() -> (t: i64)
    ensures
        t >= 0,
{
    chrono::Utc::now().timestamp_millis()
}

/// Relies on uuid's `Uuid::new_v4` and `Uuid::as_u128`: a version-4 UUID
/// drawn from the process's random generator, carried as its 128-bit value.
/// The result is random; nothing is assumed of it, and in particular not
/// freshness — callers check for collisions themselves.
#[verifier::external_body]
pub fn fresh_id() -> (id: u128)
{
    uuid::Uuid::new_v4().as_u128()
}

} // verus!
