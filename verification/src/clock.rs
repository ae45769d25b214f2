//! The one place the verified core touches the wall clock.
use vstd::prelude::*;

verus! {

/// Relies on chrono's `Utc::now` and `DateTime::timestamp_millis`: the
/// current wall-clock time as milliseconds since the Unix epoch. `Utc::now`
/// panics when the system clock stands before the epoch, so on return the
/// count is non-negative; nothing else can be promised of a clock reading.
#[verifier::external_body]
pub(crate) fn now_millis() -> (r: i64)
    ensures
        0 <= r,
{
    chrono::Utc::now().timestamp_millis()
}

} // verus!
