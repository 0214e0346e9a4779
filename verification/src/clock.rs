//! The two points where the library reads the wall clock.  Nothing is
//! promised of either result: every caller's contract holds whatever
//! string comes back.

use vstd::prelude::*;

verus! {

/// Relies on chrono's `Utc::now` and `DateTime::to_rfc3339`: the
/// current instant as an RFC 3339 timestamp.  The result depends on
/// the clock, so nothing is promised of it.
#[verifier::external_body]
pub fn now_rfc3339() -> String {
    chrono::Utc::now().to_rfc3339()
}

/// Relies on chrono's `Local::now` and `DateTime::format`: the local
/// time of day as `HH:MM:SS`.  The result depends on the clock, so
/// nothing is promised of it.
#[verifier::external_body]
pub fn now_hms() -> String {
    format!("{}", chrono::Local::now().format("%H:%M:%S"))
}

} // verus!
