//! The boundary change detector and the reflection reminder scheduler.
//!
//! One transition function carries the whole policy: read state, detect
//! whether the week or month changed since the last observation, decide
//! whether a reminder is owed (de-duplicated against the durably stored
//! period keys), and produce the event and the state to persist. The
//! embedding application supplies storage and delivers the event.
use vstd::prelude::*;
use crate::calendar::LocalDate;
use crate::calendar::same_week_days;
use crate::calendar::week_start_days;
use crate::calendar::iso_year_of;
use crate::keys::month_key_chars;
use crate::keys::week_key_of;
use crate::localtime::local_date_of_millis;
use crate::period::PeriodError;
use crate::period::millis_convertible;

verus! {

/// The event handed to the notifier when a period transition calls for
/// a reminder; emitted at most once per check.
#[derive(Debug, Clone)]
pub struct PeriodChangeEvent {
    pub has_weekly_change: bool,
    pub has_monthly_change: bool,
    pub current_week_key: String,
    pub current_month_key: String,
}

/// The four durable fields the scheduler owns, read from and written
/// back to storage around each check.
#[derive(Debug, Clone)]
pub struct ReminderState {
    /// Master switch; when false a check is a no-op.
    pub enabled: bool,
    /// Epoch milliseconds of the previous check; 0 means never checked,
    /// and suppresses the very first detection.
    pub last_checked_at_millis: i64,
    /// Weekly period key of the last reminder shown, or empty.
    pub last_shown_weekly_key: String,
    /// Monthly period key of the last reminder shown, or empty.
    pub last_shown_monthly_key: String,
}

/// What one check leaves behind: at most one event to emit, and the
/// state to persist.
#[derive(Debug, Clone)]
pub struct CheckOutcome {
    pub event: Option<PeriodChangeEvent>,
    pub state: ReminderState,
}

/// The week changed since the last observation (never on a first
/// observation).
pub open spec fn weekly_changed(
    st: ReminderState,
    last_date: Option<LocalDate>,
    now_date: LocalDate,
    w: int,
) -> bool {
    st.last_checked_at_millis != 0 && !same_week_days(
        last_date->Some_0.days as int,
        now_date.days as int,
        w,
    )
}

/// The month changed since the last observation (never on a first
/// observation).
pub open spec fn monthly_changed(
    st: ReminderState,
    last_date: Option<LocalDate>,
    now_date: LocalDate,
) -> bool {
    st.last_checked_at_millis != 0 && !(last_date->Some_0.year == now_date.year
        && last_date->Some_0.month == now_date.month)
}

/// A weekly reminder is owed: the week changed and the current week's
/// key differs from the one last shown.
pub open spec fn shows_weekly(
    st: ReminderState,
    last_date: Option<LocalDate>,
    now_date: LocalDate,
    w: int,
) -> bool {
    weekly_changed(st, last_date, now_date, w) && st.last_shown_weekly_key@ != week_key_of(
        now_date.days as int,
        w,
    )
}

/// A monthly reminder is owed: the month changed and the current
/// month's key differs from the one last shown.
pub open spec fn shows_monthly(
    st: ReminderState,
    last_date: Option<LocalDate>,
    now_date: LocalDate,
) -> bool {
    monthly_changed(st, last_date, now_date) && st.last_shown_monthly_key@ != month_key_chars(
        now_date.year as int,
        now_date.month as int,
    )
}

/// An event is emitted iff the check is enabled and some reminder is
/// owed.
pub open spec fn emits(
    st: ReminderState,
    last_date: Option<LocalDate>,
    now_date: LocalDate,
    w: int,
) -> bool {
    st.enabled && (shows_weekly(st, last_date, now_date, w) || shows_monthly(
        st,
        last_date,
        now_date,
    ))
}

/// The weekly key the check leaves stored.
pub open spec fn next_weekly_key(
    st: ReminderState,
    last_date: Option<LocalDate>,
    now_date: LocalDate,
    w: int,
) -> Seq<char> {
    if shows_weekly(st, last_date, now_date, w) {
        week_key_of(now_date.days as int, w)
    } else {
        st.last_shown_weekly_key@
    }
}

/// The monthly key the check leaves stored.
pub open spec fn next_monthly_key(
    st: ReminderState,
    last_date: Option<LocalDate>,
    now_date: LocalDate,
) -> Seq<char> {
    if shows_monthly(st, last_date, now_date) {
        month_key_chars(now_date.year as int, now_date.month as int)
    } else {
        st.last_shown_monthly_key@
    }
}

/// Compares the last-checked and current dates: did the week or the
/// month change?
pub fn detect_change_dated(last_date: &LocalDate, now_date: &LocalDate, week_start: i32) -> (r: (
    bool,
    bool,
))
    requires
        last_date.wf(),
        now_date.wf(),
        1 <= week_start <= 7,
    ensures
        r.0 == !same_week_days(last_date.days as int, now_date.days as int, week_start as int),
        r.1 == !(last_date.year == now_date.year && last_date.month == now_date.month),
{
    let wc = !last_date.same_week(now_date, week_start);
    let mc = !last_date.same_month(now_date);
    (wc, mc)
}

/// Runs one reminder check over already-converted local dates.
///
/// `last_date` is the local date of `st.last_checked_at_millis` (absent
/// for the never-checked sentinel 0), `now_date` the local date of
/// `now_millis`. Disabled state is left untouched with no event; an
/// enabled check always records `now_millis` as the new last-checked
/// instant, emits at most one event, and advances exactly the shown-key
/// fields whose reminders it emits.
pub fn check_step_dated(
    st: &ReminderState,
    now_millis: i64,
    last_date: Option<LocalDate>,
    now_date: &LocalDate,
    week_start: i32,
) -> (r: Result<CheckOutcome, PeriodError>)
    requires
        now_date.wf(),
        -262144 < now_date.year < 262144,
        st.last_checked_at_millis != 0 ==> last_date is Some && last_date->Some_0.wf(),
        1 <= week_start <= 7,
    ensures
        !st.enabled ==> r == Ok::<CheckOutcome, PeriodError>(
            CheckOutcome { event: None, state: *st },
        ),
        st.enabled ==> (r is Ok <==> !((weekly_changed(*st, last_date, *now_date, week_start as int)
            || monthly_changed(*st, last_date, *now_date)) && (iso_year_of(
            week_start_days(now_date.days as int, week_start as int),
        ) < 1 || now_date.year < 1))),
        r is Err ==> r == Err::<CheckOutcome, PeriodError>(PeriodError::InvalidTimestamp),
        st.enabled && r is Ok ==> {
            let oc = r->Ok_0;
            &&& oc.state.enabled == st.enabled
            &&& oc.state.last_checked_at_millis == now_millis
            &&& oc.state.last_shown_weekly_key@ == next_weekly_key(
                *st,
                last_date,
                *now_date,
                week_start as int,
            )
            &&& oc.state.last_shown_monthly_key@ == next_monthly_key(*st, last_date, *now_date)
            &&& (oc.event is Some <==> emits(*st, last_date, *now_date, week_start as int))
            &&& oc.event is Some ==> {
                let ev = oc.event->Some_0;
                &&& ev.has_weekly_change == shows_weekly(
                    *st,
                    last_date,
                    *now_date,
                    week_start as int,
                )
                &&& ev.has_monthly_change == shows_monthly(*st, last_date, *now_date)
                &&& ev.current_week_key@ == week_key_of(now_date.days as int, week_start as int)
                &&& ev.current_month_key@ == month_key_chars(
                    now_date.year as int,
                    now_date.month as int,
                )
            }
        },
{
    if !st.enabled {
        return Ok(
            CheckOutcome {
                event: None,
                state: ReminderState {
                    enabled: st.enabled,
                    last_checked_at_millis: st.last_checked_at_millis,
                    last_shown_weekly_key: st.last_shown_weekly_key.clone(),
                    last_shown_monthly_key: st.last_shown_monthly_key.clone(),
                },
            },
        );
    }
    let wc: bool;
    let mc: bool;
    if st.last_checked_at_millis == 0 {
        wc = false;
        mc = false;
    } else {
        let ld = match &last_date {
            Some(d) => d,
            None => {
                return Err(PeriodError::InvalidTimestamp);
            },
        };
        let (w0, m0) = detect_change_dated(ld, now_date, week_start);
        wc = w0;
        mc = m0;
    }
    if !wc && !mc {
        return Ok(
            CheckOutcome {
                event: None,
                state: ReminderState {
                    enabled: st.enabled,
                    last_checked_at_millis: now_millis,
                    last_shown_weekly_key: st.last_shown_weekly_key.clone(),
                    last_shown_monthly_key: st.last_shown_monthly_key.clone(),
                },
            },
        );
    }
    let week_key = match now_date.week_key(week_start) {
        Some(k) => k,
        None => {
            return Err(PeriodError::InvalidTimestamp);
        },
    };
    let month_key = match now_date.month_key() {
        Some(k) => k,
        None => {
            return Err(PeriodError::InvalidTimestamp);
        },
    };
    let sw = wc && !(st.last_shown_weekly_key == week_key);
    let sm = mc && !(st.last_shown_monthly_key == month_key);
    let event = if sw || sm {
        Some(
            PeriodChangeEvent {
                has_weekly_change: sw,
                has_monthly_change: sm,
                current_week_key: week_key.clone(),
                current_month_key: month_key.clone(),
            },
        )
    } else {
        None
    };
    let new_state = ReminderState {
        enabled: st.enabled,
        last_checked_at_millis: now_millis,
        last_shown_weekly_key: if sw {
            week_key
        } else {
            st.last_shown_weekly_key.clone()
        },
        last_shown_monthly_key: if sm {
            month_key
        } else {
            st.last_shown_monthly_key.clone()
        },
    };
    Ok(CheckOutcome { event, state: new_state })
}

/// Compares the last-checked instant against `now` (both epoch
/// milliseconds): did the week or the month change? A last-checked
/// value of 0 means "never checked" and reports no change at all; an
/// unconvertible instant is an explicit `InvalidTimestamp`, never
/// silently replaced by a default.
pub fn detect_period_change(last_check: i64, now: i64, week_start: i32) -> (r: Result<
    (bool, bool),
    PeriodError,
>)
    ensures
        last_check == 0 ==> r == Ok::<(bool, bool), PeriodError>((false, false)),
        last_check != 0 ==> {
            &&& !(1 <= week_start <= 7) <==> r == Err::<(bool, bool), PeriodError>(
                PeriodError::InvalidWeekStartConfig,
            )
            &&& (1 <= week_start <= 7 && !(millis_convertible(last_check as int)
                && millis_convertible(now as int))) <==> r == Err::<(bool, bool), PeriodError>(
                PeriodError::InvalidTimestamp,
            )
            &&& r is Ok <==> 1 <= week_start <= 7 && millis_convertible(last_check as int)
                && millis_convertible(now as int)
        },
        r is Err ==> r == Err::<(bool, bool), PeriodError>(PeriodError::InvalidWeekStartConfig)
            || r == Err::<(bool, bool), PeriodError>(PeriodError::InvalidTimestamp),
        r is Ok && last_check != 0 ==> exists|ld: LocalDate, nd: LocalDate|
            ld.wf() && nd.wf() && r == Ok::<(bool, bool), PeriodError>(
                (
                    !#[trigger] same_week_days(ld.days as int, nd.days as int, week_start as int),
                    !(ld.year == nd.year && ld.month == nd.month),
                ),
            ),
{
    if last_check == 0 {
        return Ok((false, false));
    }
    if week_start < 1 || week_start > 7 {
        return Err(PeriodError::InvalidWeekStartConfig);
    }
    if !crate::period::millis_in_range(last_check) || !crate::period::millis_in_range(now) {
        return Err(PeriodError::InvalidTimestamp);
    }
    let last_date = local_date_of_millis(last_check);
    let now_date = local_date_of_millis(now);
    Ok(detect_change_dated(&last_date, &now_date, week_start))
}

/// Runs one reminder check at instant `now_millis` over durable state
/// `st`, converting the instants at the local-clock boundary and then
/// applying the verified transition.
///
/// A disabled check changes nothing and emits nothing. An enabled check
/// rejects an out-of-range week-start setting and an unconvertible
/// instant with explicit errors, never fires on the first observation
/// (last-checked sentinel 0), records `now_millis` as the last-checked
/// instant, emits at most one event, and advances a stored shown-key
/// exactly when the event it emits covers that level.
pub fn check_step(st: &ReminderState, now_millis: i64, week_start: i32) -> (r: Result<
    CheckOutcome,
    PeriodError,
>)
    ensures
        !st.enabled ==> r == Ok::<CheckOutcome, PeriodError>(
            CheckOutcome { event: None, state: *st },
        ),
        st.enabled ==> (!(1 <= week_start <= 7) <==> r == Err::<CheckOutcome, PeriodError>(
            PeriodError::InvalidWeekStartConfig,
        )),
        st.enabled && 1 <= week_start <= 7 && !millis_convertible(now_millis as int) ==> r
            == Err::<CheckOutcome, PeriodError>(PeriodError::InvalidTimestamp),
        st.enabled && 1 <= week_start <= 7 && st.last_checked_at_millis != 0
            && !millis_convertible(st.last_checked_at_millis as int) ==> r == Err::<
            CheckOutcome,
            PeriodError,
        >(PeriodError::InvalidTimestamp),
        r is Err ==> r == Err::<CheckOutcome, PeriodError>(PeriodError::InvalidWeekStartConfig)
            || r == Err::<CheckOutcome, PeriodError>(PeriodError::InvalidTimestamp),
        st.enabled && 1 <= week_start <= 7 && 0 <= now_millis < 4_000_000_000_000_000 && (
        st.last_checked_at_millis == 0 || millis_convertible(st.last_checked_at_millis as int))
            ==> r is Ok,
        st.enabled && r is Ok && st.last_checked_at_millis == 0 ==> r->Ok_0.event is None,
        st.enabled && r is Ok ==> {
            let oc = r->Ok_0;
            &&& oc.state.enabled == st.enabled
            &&& oc.state.last_checked_at_millis == now_millis
            &&& (oc.event is None ==> oc.state.last_shown_weekly_key@
                == st.last_shown_weekly_key@ && oc.state.last_shown_monthly_key@
                == st.last_shown_monthly_key@)
            &&& oc.event is Some ==> {
                let ev = oc.event->Some_0;
                &&& ev.has_weekly_change || ev.has_monthly_change
                &&& ev.has_weekly_change ==> st.last_shown_weekly_key@ != ev.current_week_key@
                    && oc.state.last_shown_weekly_key@ == ev.current_week_key@
                &&& !ev.has_weekly_change ==> oc.state.last_shown_weekly_key@
                    == st.last_shown_weekly_key@
                &&& ev.has_monthly_change ==> st.last_shown_monthly_key@ != ev.current_month_key@
                    && oc.state.last_shown_monthly_key@ == ev.current_month_key@
                &&& !ev.has_monthly_change ==> oc.state.last_shown_monthly_key@
                    == st.last_shown_monthly_key@
            }
        },
{
    if !st.enabled {
        return Ok(
            CheckOutcome {
                event: None,
                state: ReminderState {
                    enabled: st.enabled,
                    last_checked_at_millis: st.last_checked_at_millis,
                    last_shown_weekly_key: st.last_shown_weekly_key.clone(),
                    last_shown_monthly_key: st.last_shown_monthly_key.clone(),
                },
            },
        );
    }
    if week_start < 1 || week_start > 7 {
        return Err(PeriodError::InvalidWeekStartConfig);
    }
    if !crate::period::millis_in_range(now_millis) {
        return Err(PeriodError::InvalidTimestamp);
    }
    let now_date = local_date_of_millis(now_millis);
    let last_date: Option<LocalDate> = if st.last_checked_at_millis == 0 {
        None
    } else {
        if !crate::period::millis_in_range(st.last_checked_at_millis) {
            return Err(PeriodError::InvalidTimestamp);
        }
        Some(local_date_of_millis(st.last_checked_at_millis))
    };
    proof {
        if 0 <= now_millis {
            crate::calendar::lemma_wf_days_bounds(now_date);
            crate::calendar::lemma_days_back_range(now_date.days as int, week_start as int);
            crate::calendar::lemma_date_days_bounds(
                now_date.year as int,
                now_date.month as int,
                now_date.day as int,
            );
            crate::calendar::lemma_year_start_mono(
                crate::calendar::MIN_MODEL_YEAR as int + 1,
                -262143,
            );
            crate::calendar::lemma_year_start_mono(-262143, now_date.year as int);
            if now_date.year as int + 1 < crate::calendar::MAX_MODEL_YEAR as int - 1 {
                crate::calendar::lemma_year_start_mono(
                    now_date.year as int + 1,
                    crate::calendar::MAX_MODEL_YEAR as int - 1,
                );
            }
            crate::calendar::lemma_year_start_step(now_date.year as int);
            crate::calendar::lemma_iso_year_positive(
                week_start_days(now_date.days as int, week_start as int),
            );
            crate::calendar::lemma_year_lower_bound(now_date, 1);
        }
    }
    check_step_dated(st, now_millis, last_date, &now_date, week_start)
}

/// The reminder fires at most once per period transition: when an
/// enabled check sees the week change and the new week's key was not
/// yet shown, it owes exactly one weekly reminder, records that key,
/// and a second check made at the same instant (so the last-checked
/// and current dates coincide) detects no change and emits nothing.
pub proof fn lemma_reminder_fires_once(
    st: ReminderState,
    ld: LocalDate,
    nd: LocalDate,
    w: int,
    st2: ReminderState,
)
    requires
        st.enabled,
        st.last_checked_at_millis != 0,
        !same_week_days(ld.days as int, nd.days as int, w),
        st.last_shown_weekly_key@ != week_key_of(nd.days as int, w),
        st2.enabled == st.enabled,
        st2.last_checked_at_millis != 0,
        st2.last_shown_weekly_key@ == next_weekly_key(st, Some(ld), nd, w),
        st2.last_shown_monthly_key@ == next_monthly_key(st, Some(ld), nd),
    ensures
        shows_weekly(st, Some(ld), nd, w),
        emits(st, Some(ld), nd, w),
        next_weekly_key(st, Some(ld), nd, w) == week_key_of(nd.days as int, w),
        !emits(st2, Some(nd), nd, w),
{
    assert(!weekly_changed(st2, Some(nd), nd, w));
    assert(!monthly_changed(st2, Some(nd), nd));
}

} // verus!
