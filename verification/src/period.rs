//! Period membership and period starts at the timestamp level: the
//! on-demand queries used by goal listing and creation.
//!
//! Each function converts its instants to local dates at the clock
//! boundary and hands them to a verified date-level core, so the
//! boundary semantics here and in the reminder scheduler can never
//! disagree.
use vstd::prelude::*;
use crate::calendar::LocalDate;
use crate::calendar::same_week_days;
use crate::calendar::week_start_days;
use crate::localtime::local_date_of_millis;
use crate::localtime::local_midnight_millis;
use crate::models::GoalLevel;
use crate::models::level_of_text;

verus! {

/// The error kinds of the period engine.
#[derive(Debug, Clone, Copy, PartialEq, Eq, Structural)]
pub enum PeriodError {
    /// The instant lies outside the representable local-time range, or
    /// has no unambiguous local midnight.
    InvalidTimestamp,
    /// A level tag at a textual boundary was not recognized.
    InvalidLevel,
    /// A week-start setting outside 1..=7.
    InvalidWeekStartConfig,
    /// The underlying storage read or write failed.
    StorageUnavailable,
}

/// Instants within this distance of the epoch are guaranteed to convert
/// to a local date.
pub open spec fn millis_convertible(ms: int) -> bool {
    -4_000_000_000_000_000 < ms < 4_000_000_000_000_000
}

/// Whether an instant lies in the convertible window.
pub fn millis_in_range(ms: i64) -> (r: bool)
    ensures
        r == millis_convertible(ms as int),
{
    -4_000_000_000_000_000 < ms && ms < 4_000_000_000_000_000
}

/// Whether dates `a` and `b` lie in the same period of granularity
/// `level`, for week-start setting `w`.
pub open spec fn period_equiv(a: LocalDate, b: LocalDate, level: GoalLevel, w: int) -> bool {
    match level {
        GoalLevel::Daily => a.days == b.days,
        GoalLevel::Weekly => same_week_days(a.days as int, b.days as int, w),
        GoalLevel::Monthly => a.year == b.year && a.month == b.month,
    }
}

/// Day number of the first day of the period of granularity `level`
/// containing date `d`, for week-start setting `w`.
pub open spec fn period_start_days(d: LocalDate, level: GoalLevel, w: int) -> int {
    match level {
        GoalLevel::Daily => d.days as int,
        GoalLevel::Weekly => week_start_days(d.days as int, w),
        GoalLevel::Monthly => d.days - (d.day - 1),
    }
}

/// Whether dates `a` and `b` lie in the same period of granularity
/// `level`.
pub fn in_same_period(a: &LocalDate, b: &LocalDate, level: GoalLevel, week_start: i32) -> (r: bool)
    requires
        a.wf(),
        b.wf(),
        level is Weekly ==> 1 <= week_start <= 7,
    ensures
        r == period_equiv(*a, *b, level, week_start as int),
{
    match level {
        GoalLevel::Daily => a.same_day(b),
        GoalLevel::Weekly => a.same_week(b, week_start),
        GoalLevel::Monthly => a.same_month(b),
    }
}

/// Whether the goal stamped with period start `goal_period_start` belongs
/// to the period of `level` containing `target_date`, under week-start
/// setting `week_start`. Both instants are epoch milliseconds.
///
/// An unconvertible instant, an unrecognized level and an out-of-range
/// week-start setting (for the weekly level, which alone reads it) are
/// explicit errors, in that order; nothing is silently substituted.
pub fn is_goal_in_period(
    goal_period_start: i64,
    level: String,
    target_date: i64,
    week_start: i32,
) -> (r: Result<bool, PeriodError>)
    ensures
        !(millis_convertible(goal_period_start as int) && millis_convertible(target_date as int))
            <==> r == Err::<bool, PeriodError>(PeriodError::InvalidTimestamp),
        millis_convertible(goal_period_start as int) && millis_convertible(target_date as int)
            ==> {
            &&& level_of_text(level@) is None <==> r == Err::<bool, PeriodError>(
                PeriodError::InvalidLevel,
            )
            &&& (level_of_text(level@) == Some(GoalLevel::Weekly) && !(1 <= week_start <= 7))
                <==> r == Err::<bool, PeriodError>(PeriodError::InvalidWeekStartConfig)
        },
        r is Ok <==> millis_convertible(goal_period_start as int) && millis_convertible(
            target_date as int,
        ) && level_of_text(level@) is Some && (level_of_text(level@) == Some(GoalLevel::Weekly)
            ==> 1 <= week_start <= 7),
        r is Ok ==> exists|a: LocalDate, b: LocalDate|
            a.wf() && b.wf() && r == Ok::<bool, PeriodError>(
                #[trigger] period_equiv(a, b, level_of_text(level@)->Some_0, week_start as int),
            ),
{
    if !millis_in_range(goal_period_start) || !millis_in_range(target_date) {
        return Err(PeriodError::InvalidTimestamp);
    }
    let goal_date = local_date_of_millis(goal_period_start);
    let target = local_date_of_millis(target_date);
    let lvl = match GoalLevel::from_str(level.as_str()) {
        Some(l) => l,
        None => {
            return Err(PeriodError::InvalidLevel);
        },
    };
    if matches!(lvl, GoalLevel::Weekly) && (week_start < 1 || week_start > 7) {
        return Err(PeriodError::InvalidWeekStartConfig);
    }
    Ok(in_same_period(&goal_date, &target, lvl, week_start))
}

/// The epoch-millisecond instant of local midnight beginning the period
/// of `level` that contains `date`, under week-start setting
/// `week_start`.
///
/// An unconvertible instant, an unrecognized level and an out-of-range
/// week-start setting (for the weekly level, which alone reads it) are
/// explicit errors, in that order. A period start whose local midnight
/// a daylight-saving transition skips or doubles is also reported as
/// `InvalidTimestamp`, never substituted.
pub fn get_period_start(date: i64, level: String, week_start: i32) -> (r: Result<
    i64,
    PeriodError,
>)
    ensures
        !millis_convertible(date as int) ==> r == Err::<i64, PeriodError>(
            PeriodError::InvalidTimestamp,
        ),
        millis_convertible(date as int) ==> {
            &&& level_of_text(level@) is None <==> r == Err::<i64, PeriodError>(
                PeriodError::InvalidLevel,
            )
            &&& (level_of_text(level@) == Some(GoalLevel::Weekly) && !(1 <= week_start <= 7))
                <==> r == Err::<i64, PeriodError>(PeriodError::InvalidWeekStartConfig)
        },
        r is Err ==> r == Err::<i64, PeriodError>(PeriodError::InvalidTimestamp) || r == Err::<
            i64,
            PeriodError,
        >(PeriodError::InvalidLevel) || r == Err::<i64, PeriodError>(
            PeriodError::InvalidWeekStartConfig,
        ),
        r is Ok ==> millis_convertible(date as int) && level_of_text(level@) is Some && (
        level_of_text(level@) == Some(GoalLevel::Weekly) ==> 1 <= week_start <= 7),
        r is Ok ==> exists|d: LocalDate|
            d.wf() && ({
                let sd = #[trigger] period_start_days(
                    d,
                    level_of_text(level@)->Some_0,
                    week_start as int,
                );
                (sd - 719163) * 86_400_000 - 86_400_000 < r->Ok_0 < (sd - 719163) * 86_400_000
                    + 86_400_000
            }),
{
    if !millis_in_range(date) {
        return Err(PeriodError::InvalidTimestamp);
    }
    let d = local_date_of_millis(date);
    let lvl = match GoalLevel::from_str(level.as_str()) {
        Some(l) => l,
        None => {
            return Err(PeriodError::InvalidLevel);
        },
    };
    proof {
        crate::calendar::lemma_wf_days_bounds(d);
    }
    let start_days: i64 = match lvl {
        GoalLevel::Daily => d.days,
        GoalLevel::Weekly => {
            if week_start < 1 || week_start > 7 {
                return Err(PeriodError::InvalidWeekStartConfig);
            }
            proof {
                crate::calendar::lemma_days_back_range(d.days as int, week_start as int);
            }
            crate::calendar::week_start_of_days(d.days, week_start)
        },
        GoalLevel::Monthly => d.days - (d.day as i64 - 1),
    };
    proof {
        assert(period_start_days(d, level_of_text(level@)->Some_0, week_start as int)
            == start_days as int);
    }
    match local_midnight_millis(start_days) {
        Some(ms) => {
            proof {
                let sd = period_start_days(d, level_of_text(level@)->Some_0, week_start as int);
                assert((sd - 719163) * 86_400_000 - 86_400_000 < ms < (sd - 719163) * 86_400_000
                    + 86_400_000);
            }
            Ok(ms)
        },
        None => Err(PeriodError::InvalidTimestamp),
    }
}

} // verus!
