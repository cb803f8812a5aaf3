//! Access to the wall clock, the one part of the buffer engine that cannot be
//! computed from its arguments.

use vstd::prelude::*;

verus! {

/// Relies on chrono's `Utc::now` and `DateTime::timestamp_millis`: the system
/// clock read as a UTC timestamp in milliseconds. `Utc::now` only returns
/// times at or after the Unix epoch (it aborts otherwise), so the result is
/// never negative; nothing more can be promised of a clock reading.
#[verifier::external_body]
pub fn now_millis() -> (t: i64)
    ensures
        0 <= t,
{
    chrono::Utc::now().timestamp_millis()
}

/// Relies on chrono's `DateTime::format`: the current UTC time rendered as
/// `year-month-day hour:minute:second UTC`. The result depends on the clock,
/// so nothing is promised of it.
#[verifier::external_body]
pub fn utc_now_formatted() -> Vec<u8>
{
    chrono::Utc::now().format("%Y-%m-%d %H:%M:%S UTC").to_string().into_bytes()
}

} // verus!
