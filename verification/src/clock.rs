//! The trusted boundary around the system clock, through chrono. A clock
//! reading depends on the moment of the call, so nothing is promised of
//! these results; callers state what holds whatever came back.

use vstd::prelude::*;

verus! {

/// Relies on `chrono::Local::now` and `DateTime::format`: the current local
/// date, written year-month-day. The result depends on the clock, so
/// nothing is promised of it.
#[verifier::external_body]
pub(crate) fn current_date_string() -> (r: String) {
    chrono::Local::now().format("%Y-%m-%d").to_string()
}

/// Relies on `chrono::Local::now` and `DateTime::format`: a compact local
/// timestamp used to key the holding area. The result depends on the
/// clock, so nothing is promised of it.
#[verifier::external_body]
pub(crate) fn current_stamp_string() -> (r: String) {
    chrono::Local::now().format("%Y%m%d_%H%M%S").to_string()
}

} // verus!
