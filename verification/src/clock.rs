//! The wall clock, read through chrono. Programmes poll it on every
//! tick; nothing can be promised about the value it returns, so every
//! caller states what holds for any reading.

use vstd::prelude::*;

verus! {

/// Relies on chrono::Utc::now, reduced to whole milliseconds since the
/// Unix epoch by DateTime::timestamp_millis. The reading depends on the
/// machine's clock, so nothing is promised of it; the outside call
/// itself aborts if the machine clock reads before the Unix epoch.
#[verifier::external_body]
pub fn now_utc_millis() -> i64 {
    chrono::Utc::now().timestamp_millis()
}

/// Relies on chrono::Local::now, reduced to the local time of day by
/// Timelike::num_seconds_from_midnight, which chrono documents as the
/// number of non-leap seconds past the last midnight, always below
/// 86400. The outside call itself aborts if the machine clock reads
/// before the Unix epoch.
#[verifier::external_body]
pub fn local_seconds_of_day() -> (r: u32)
    ensures
        r < 86400,
{
    chrono::Timelike::num_seconds_from_midnight(&chrono::Local::now().time())
}

} // verus!
