//! Wall-clock timestamps, in milliseconds since the Unix epoch.

use vstd::prelude::*;

verus! {

/// Relies on `chrono::Utc::now` (read through `timestamp_millis`) for the
/// current wall-clock time. The value depends on the clock, so nothing is
/// assumed of it.
#[verifier::external_body]
pub(crate) fn utc_now_millis() -> i64 {
    chrono::Utc::now().timestamp_millis()
}

/// The current time as an unsigned millisecond count.
///
/// A clock reading before the Unix epoch is clamped to zero, so the
/// result is usable wherever the data model expects a `u64` timestamp.
pub fn current_time_millis() -> u64 {
    let t: i64 = utc_now_millis();
    if t < 0 {
        0
    } else {
        t as u64
    }
}

} // verus!
