//! The boundary to the system clock and the machine's local time zone.
//!
//! Everything here defers to chrono; the rest of the library works on
//! plain day numbers and `LocalDate` values and is verified against the
//! calendar model. Which local date a given instant falls on depends on
//! the machine's configured zone, so these functions promise only what
//! holds of every zone.
use vstd::prelude::*;
use chrono::Datelike;
use chrono::TimeZone;
use crate::calendar::LocalDate;

verus! {

/// Relies on chrono's `DateTime::from_timestamp_millis`, `with_timezone`
/// to `chrono::Local`, and the `Datelike` field accessors: the local
/// calendar date of the instant `ms` (epoch milliseconds).
///
/// chrono represents years up to about 262,000 from the common era, and
/// local offsets stay strictly within one day, so every instant within
/// 4.0e15 ms of the epoch (about 126,000 years) converts; the precondition
/// keeps callers well inside that window, away from the representable
/// extremes where adding the local offset would push the datetime out of
/// range (there `naive_local` panics). `num_days_from_ce` counts
/// January 1 of year 1 as day 1, agreeing with `date_days`.
#[verifier::external_body]
pub(crate) fn local_date_of_millis(ms: i64) -> (r: LocalDate)
    requires
        -4_000_000_000_000_000 < ms < 4_000_000_000_000_000,
    ensures
        r.wf(),
        -262144 < r.year < 262144,
        0 <= ms ==> r.days >= 719162,
{
    let dt = chrono::DateTime::from_timestamp_millis(ms)
        .expect("instant within the supported window")
        .with_timezone(&chrono::Local);
    let nd = dt.date_naive();
    LocalDate {
        year: nd.year(),
        month: nd.month() as u8,
        day: nd.day() as u8,
        days: nd.num_days_from_ce() as i64,
    }
}

/// Relies on chrono's `NaiveDate::from_num_days_from_ce_opt`,
/// `and_local_timezone` with `chrono::Local`, and `timestamp_millis`:
/// the instant (epoch milliseconds) at which midnight of day number
/// `days` occurs in the local zone, or `None` when a daylight-saving
/// transition skips or doubles that midnight.
///
/// Day 719163 is January 1 of 1970, and chrono keeps local offsets
/// strictly within one day of UTC, which bounds the result.
#[verifier::external_body]
pub(crate) fn local_midnight_millis(days: i64) -> (r: Option<i64>)
    requires
        -97_000_000 < days < 97_000_000,
    ensures
        r is Some ==> (days - 719163) * 86_400_000 - 86_400_000 < r->Some_0 < (days - 719163)
            * 86_400_000 + 86_400_000,
{
    let nd = chrono::NaiveDate::from_num_days_from_ce_opt(days as i32)?;
    let ndt = nd.and_hms_opt(0, 0, 0)?;
    match ndt.and_local_timezone(chrono::Local).single() {
        Some(dt) => Some(dt.timestamp_millis()),
        None => None,
    }
}

/// Relies on chrono's `Utc::now`: the wall clock at the moment of the
/// call, as epoch milliseconds. Nothing is promised of it; the system
/// clock answers as it pleases. (chrono itself gives up on a system
/// clock set before 1970, so this call inherits that limit.)
#[verifier::external_body]
pub(crate) fn current_millis() -> i64 {
    chrono::Utc::now().timestamp_millis()
}

} // verus!
