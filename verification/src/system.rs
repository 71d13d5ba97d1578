//! What the library takes from its surroundings: fresh job ids and the
//! current time.

use crate::model::Timestamp;
use vstd::prelude::*;

verus! {

/// `uuid::Uuid::new_v4`, as its 128-bit value: random bits with the
/// version nibble set to 4 and the variant bits to `10`. Which random
/// value comes back is not stated.
#[verifier::external_body]
pub(crate) fn fresh_uuid() -> (id: u128)
    ensures
        (id >> 76u128) & 0xfu128 == 4,
        (id >> 62u128) & 0x3u128 == 2,
{
    uuid::Uuid::new_v4().as_u128()
}

/// `chrono::Utc::now`, as seconds since the epoch and nanoseconds past the
/// second (which exceed 999_999_999 only within a leap second). Which
/// instant comes back is not stated.
#[verifier::external_body]
pub(crate) fn current_time() -> (t: Timestamp)
    ensures
        t.nanos < 2_000_000_000,
{
    let now = chrono::Utc::now();
    Timestamp { secs: now.timestamp(), nanos: now.timestamp_subsec_nanos() }
}

} // verus!
