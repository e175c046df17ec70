//! The calendar period calculator: a mathematical model of the proleptic
//! Gregorian calendar, a concrete local-date type carrying its day number,
//! and the period-boundary arithmetic (day, week, month) on top of it.
//!
//! Dates are modelled by their *day number*: day 1 is January 1 of year 1,
//! and each later day adds one (a rata die count). All boundary questions
//! (same day, same week for a configurable week-start day, same month)
//! reduce to arithmetic on day numbers.
use vstd::prelude::*;

verus! {

/// Lowest year the library models.
pub const MIN_MODEL_YEAR: i32 = -262200;
/// Highest year the library models.
pub const MAX_MODEL_YEAR: i32 = 262200;

/// A year is a leap year iff it is divisible by 4 but not by 100,
/// or divisible by 400.
pub open spec fn leap_year(y: int) -> bool {
    (y % 4 == 0 && y % 100 != 0) || y % 400 == 0
}

/// Number of days in year `y`.
pub open spec fn year_length(y: int) -> int {
    if leap_year(y) {
        366
    } else {
        365
    }
}

/// Number of days in month `m` (1..=12) of year `y`.
pub open spec fn month_length(y: int, m: int) -> int {
    if m == 2 {
        if leap_year(y) {
            29
        } else {
            28
        }
    } else if m == 4 || m == 6 || m == 9 || m == 11 {
        30
    } else {
        31
    }
}

/// Number of days in year `y` that lie before month `m`.
pub open spec fn month_prefix_days(y: int, m: int) -> int
    decreases m,
{
    if m <= 1 {
        0
    } else {
        month_prefix_days(y, m - 1) + month_length(y, m - 1)
    }
}

/// Day of year (1-based) of the date `y-m-d`.
pub open spec fn day_of_year(y: int, m: int, d: int) -> int {
    month_prefix_days(y, m) + d
}

/// Day number of the last day of year `y - 1`; equivalently the number of
/// days lying strictly before January 1 of year `y`.
pub open spec fn year_start_days(y: int) -> int {
    365 * (y - 1) + (y - 1) / 4 - (y - 1) / 100 + (y - 1) / 400
}

/// The day number of the date `y-m-d`: January 1 of year 1 is day 1.
pub open spec fn date_days(y: int, m: int, d: int) -> int {
    year_start_days(y) + day_of_year(y, m, d)
}

/// The month and day fields form a real date of year `y`.
pub open spec fn valid_md(y: int, m: int, d: int) -> bool {
    &&& 1 <= m <= 12
    &&& 1 <= d <= month_length(y, m)
}

/// A calendar date in the local time zone, together with its day number.
///
/// The day number is kept alongside the civil fields so that week
/// arithmetic (which subtracts whole calendar days) is plain integer
/// arithmetic; well-formedness ties the two representations together.
pub struct LocalDate {
    pub year: i32,
    pub month: u8,
    pub day: u8,
    pub days: i64,
}

impl LocalDate {
    /// The civil fields form a real date, the year lies in the modelled
    /// range, and the day number agrees with the civil fields.
    pub open spec fn wf(self) -> bool {
        &&& valid_md(self.year as int, self.month as int, self.day as int)
        &&& MIN_MODEL_YEAR as int <= self.year as int <= MAX_MODEL_YEAR as int
        &&& self.days as int == date_days(self.year as int, self.month as int, self.day as int)
    }
}

/// Dividing one step apart: for positive `d`, `x / d` exceeds
/// `(x - 1) / d` exactly when `d` divides `x`.
proof fn lemma_div_step(x: int, d: int)
    requires
        0 < d,
    ensures
        x % d == 0 ==> x / d == (x - 1) / d + 1,
        x % d != 0 ==> x / d == (x - 1) / d,
{
    let q = (x - 1) / d;
    let r = (x - 1) % d;
    vstd::arithmetic::div_mod::lemma_fundamental_div_mod(x - 1, d);
    vstd::arithmetic::div_mod::lemma_mod_bound(x - 1, d);
    if r + 1 < d {
        vstd::arithmetic::div_mod::lemma_fundamental_div_mod_converse(x, d, q, r + 1);
    } else {
        assert(x == (q + 1) * d + 0) by (nonlinear_arith)
            requires
                x - 1 == d * q + r,
                r == d - 1,
        ;
        vstd::arithmetic::div_mod::lemma_fundamental_div_mod_converse(x, d, q + 1, 0);
    }
}

/// A multiple of 400 is a multiple of 100 and of 4; a multiple of 100 is
/// a multiple of 4.
proof fn lemma_leap_divisors(y: int)
    ensures
        y % 400 == 0 ==> y % 100 == 0 && y % 4 == 0,
        y % 100 == 0 ==> y % 4 == 0,
{
    if y % 400 == 0 {
        vstd::arithmetic::div_mod::lemma_fundamental_div_mod(y, 400);
        let k = y / 400;
        assert(y == (4 * k) * 100 + 0) by (nonlinear_arith)
            requires
                y == 400 * k,
        ;
        vstd::arithmetic::div_mod::lemma_fundamental_div_mod_converse(y, 100, 4 * k, 0);
        assert(y == (100 * k) * 4 + 0) by (nonlinear_arith)
            requires
                y == 400 * k,
        ;
        vstd::arithmetic::div_mod::lemma_fundamental_div_mod_converse(y, 4, 100 * k, 0);
    }
    if y % 100 == 0 {
        vstd::arithmetic::div_mod::lemma_fundamental_div_mod(y, 100);
        let k = y / 100;
        assert(y == (25 * k) * 4 + 0) by (nonlinear_arith)
            requires
                y == 100 * k,
        ;
        vstd::arithmetic::div_mod::lemma_fundamental_div_mod_converse(y, 4, 25 * k, 0);
    }
}

/// Stepping the year start forward by one year adds exactly that year's
/// length.
pub proof fn lemma_year_start_step(y: int)
    ensures
        year_start_days(y + 1) == year_start_days(y) + year_length(y),
{
    lemma_div_step(y, 4);
    lemma_div_step(y, 100);
    lemma_div_step(y, 400);
    lemma_leap_divisors(y);
}

/// The months of a year exactly cover it: the prefix past month 12 is the
/// whole year.
pub proof fn lemma_month_prefix_total(y: int)
    ensures
        month_prefix_days(y, 13) == year_length(y),
{
    reveal_with_fuel(month_prefix_days, 13);
}

/// Month prefixes grow monotonically, by at least each month's length.
pub proof fn lemma_month_prefix_mono(y: int, m1: int, m2: int)
    requires
        1 <= m1 < m2,
    ensures
        month_prefix_days(y, m1) + month_length(y, m1) <= month_prefix_days(y, m2),
    decreases m2 - m1,
{
    if m1 + 1 < m2 {
        lemma_month_prefix_mono(y, m1, m2 - 1);
    }
}

/// The day of year of a valid date lies in `1..=year_length`.
pub proof fn lemma_day_of_year_bounds(y: int, m: int, d: int)
    requires
        valid_md(y, m, d),
    ensures
        1 <= day_of_year(y, m, d) <= year_length(y),
        0 <= month_prefix_days(y, m),
{
    lemma_month_prefix_total(y);
    if m < 13 {
        if m < 12 {
            lemma_month_prefix_mono(y, m, 13);
        }
    }
    assert(0 <= month_prefix_days(y, m)) by {
        if m > 1 {
            lemma_month_prefix_mono(y, 1, m);
        }
    }
}

/// Year starts are ordered: an earlier year's days all precede a later
/// year's days.
pub proof fn lemma_year_start_mono(y1: int, y2: int)
    requires
        y1 < y2,
    ensures
        year_start_days(y1) + year_length(y1) <= year_start_days(y2),
    decreases y2 - y1,
{
    lemma_year_start_step(y1);
    if y1 + 1 < y2 {
        lemma_year_start_mono(y1 + 1, y2);
    }
}

/// A valid date's day number falls strictly inside its own year's range.
pub proof fn lemma_date_days_bounds(y: int, m: int, d: int)
    requires
        valid_md(y, m, d),
    ensures
        year_start_days(y) < date_days(y, m, d),
        date_days(y, m, d) <= year_start_days(y) + year_length(y),
        date_days(y, m, d) < year_start_days(y + 1) + 1,
{
    lemma_day_of_year_bounds(y, m, d);
    lemma_year_start_step(y);
}

/// Two valid dates with the same day number are the same date.
pub proof fn lemma_date_days_inj(y1: int, m1: int, d1: int, y2: int, m2: int, d2: int)
    requires
        valid_md(y1, m1, d1),
        valid_md(y2, m2, d2),
        date_days(y1, m1, d1) == date_days(y2, m2, d2),
    ensures
        y1 == y2 && m1 == m2 && d1 == d2,
{
    if y1 < y2 {
        lemma_date_days_bounds(y1, m1, d1);
        lemma_date_days_bounds(y2, m2, d2);
        lemma_year_start_mono(y1, y2);
    } else if y2 < y1 {
        lemma_date_days_bounds(y1, m1, d1);
        lemma_date_days_bounds(y2, m2, d2);
        lemma_year_start_mono(y2, y1);
    } else {
        if m1 < m2 {
            lemma_month_prefix_mono(y1, m1, m2);
        } else if m2 < m1 {
            lemma_month_prefix_mono(y1, m2, m1);
        }
    }
}

/// A well-formed date's day number is small enough for comfortable
/// 64-bit arithmetic.
pub proof fn lemma_wf_days_bounds(d: LocalDate)
    requires
        d.wf(),
    ensures
        -96_000_000 < d.days < 96_000_000,
{
    let y = d.year as int;
    let p = y - 1;
    vstd::arithmetic::div_mod::lemma_div_is_ordered(-262202, p, 4);
    vstd::arithmetic::div_mod::lemma_div_is_ordered(p, 262200, 4);
    vstd::arithmetic::div_mod::lemma_div_is_ordered(-262202, p, 100);
    vstd::arithmetic::div_mod::lemma_div_is_ordered(p, 262200, 100);
    vstd::arithmetic::div_mod::lemma_div_is_ordered(-262202, p, 400);
    vstd::arithmetic::div_mod::lemma_div_is_ordered(p, 262200, 400);
    lemma_day_of_year_bounds(y, d.month as int, d.day as int);
}

/// A well-formed date whose day number lies past the start of year `y`
/// belongs to year `y` or later.
pub proof fn lemma_year_lower_bound(d: LocalDate, y: int)
    requires
        d.wf(),
        d.days > year_start_days(y),
    ensures
        d.year as int >= y,
{
    if (d.year as int) < y {
        lemma_date_days_bounds(d.year as int, d.month as int, d.day as int);
        lemma_year_start_step(d.year as int);
        if d.year + 1 < y {
            lemma_year_start_mono(d.year as int + 1, y);
        }
    }
}

/// A well-formed date whose day number does not pass the end of year `y`
/// belongs to year `y` or earlier.
pub proof fn lemma_year_upper_bound(d: LocalDate, y: int)
    requires
        d.wf(),
        d.days as int <= year_start_days(y + 1),
    ensures
        d.year as int <= y,
{
    lemma_date_days_bounds(d.year as int, d.month as int, d.day as int);
    if d.year as int > y {
        if y + 1 < d.year as int {
            lemma_year_start_mono(y + 1, d.year as int);
        }
    }
}

impl LocalDate {
    /// Whether `year` (which may be far outside the modelled range in a
    /// caller's hands) is a leap year. Works on a representative shifted
    /// into nonnegative territory so the remainders are the mathematical
    /// ones.
    pub fn leap(year: i32) -> (r: bool)
        requires
            year >= -400_000,
        ensures
            r == leap_year(year as int),
    {
        let s: u64 = (year as i64 + 400_000) as u64;
        proof {
            vstd::arithmetic::div_mod::lemma_mod_multiples_vanish(100_000, year as int, 4);
            vstd::arithmetic::div_mod::lemma_mod_multiples_vanish(4_000, year as int, 100);
            vstd::arithmetic::div_mod::lemma_mod_multiples_vanish(1_000, year as int, 400);
        }
        (s % 4 == 0 && s % 100 != 0) || s % 400 == 0
    }

    /// Length in days of month `m` of year `year`.
    pub fn month_len(year: i32, m: u8) -> (r: u8)
        requires
            year >= -400_000,
            1 <= m <= 12,
        ensures
            r as int == month_length(year as int, m as int),
    {
        if m == 2 {
            if Self::leap(year) {
                29
            } else {
                28
            }
        } else if m == 4 || m == 6 || m == 9 || m == 11 {
            30
        } else {
            31
        }
    }

    /// Days of year `year` lying before month `m`.
    pub fn month_prefix(year: i32, m: u8) -> (r: u16)
        requires
            year >= -400_000,
            1 <= m <= 13,
        ensures
            r as int == month_prefix_days(year as int, m as int),
    {
        proof {
            reveal_with_fuel(month_prefix_days, 13);
        }
        let base: u16 = if m == 1 {
            0
        } else if m == 2 {
            31
        } else if m == 3 {
            59
        } else if m == 4 {
            90
        } else if m == 5 {
            120
        } else if m == 6 {
            151
        } else if m == 7 {
            181
        } else if m == 8 {
            212
        } else if m == 9 {
            243
        } else if m == 10 {
            273
        } else if m == 11 {
            304
        } else if m == 12 {
            334
        } else {
            365
        };
        if m > 2 && Self::leap(year) {
            base + 1
        } else {
            base
        }
    }

    /// Day number of the last day before year `year`, for years in the
    /// modelled range on the common-era side.
    fn year_start(year: i32) -> (r: i64)
        requires
            1 <= year <= MAX_MODEL_YEAR,
        ensures
            r as int == year_start_days(year as int),
    {
        let p: i64 = (year - 1) as i64;
        let q4: u64 = (p as u64) / 4;
        let q100: u64 = (p as u64) / 100;
        let q400: u64 = (p as u64) / 400;
        365 * p + (q4 as i64) - (q100 as i64) + (q400 as i64)
    }

    /// Builds the date `year-month-day`, if it is a real calendar date in
    /// the library's supported window (years 1 through `MAX_MODEL_YEAR`).
    pub fn from_ymd(year: i32, month: u8, day: u8) -> (r: Option<LocalDate>)
        ensures
            r is Some <==> 1 <= year <= MAX_MODEL_YEAR && valid_md(
                year as int,
                month as int,
                day as int,
            ),
            r is Some ==> {
                let d = r->Some_0;
                &&& d.wf()
                &&& d.year == year
                &&& d.month == month
                &&& d.day == day
            },
    {
        if year < 1 || year > MAX_MODEL_YEAR || month < 1 || month > 12 {
            return None;
        }
        if day < 1 || day > Self::month_len(year, month) {
            return None;
        }
        let ys = Self::year_start(year);
        let prefix = Self::month_prefix(year, month);
        let days: i64 = ys + prefix as i64 + day as i64;
        Some(LocalDate { year, month, day, days })
    }

    /// The date one day before `self`.
    pub fn prev_day(&self) -> (r: LocalDate)
        requires
            self.wf(),
            self.year > MIN_MODEL_YEAR,
        ensures
            r.wf(),
            r.days == self.days - 1,
            r.year as int >= self.year as int - 1,
    {
        proof {
            lemma_wf_days_bounds(*self);
        }
        if self.day > 1 {
            LocalDate { year: self.year, month: self.month, day: self.day - 1, days: self.days - 1 }
        } else if self.month > 1 {
            let m = self.month - 1;
            let len = Self::month_len(self.year, m);
            LocalDate { year: self.year, month: m, day: len, days: self.days - 1 }
        } else {
            let y = self.year - 1;
            proof {
                lemma_year_start_step(y as int);
                lemma_month_prefix_total(y as int);
                reveal_with_fuel(month_prefix_days, 13);
            }
            LocalDate { year: y, month: 12, day: 31, days: self.days - 1 }
        }
    }

    /// The date one day after `self`.
    pub fn next_day(&self) -> (r: LocalDate)
        requires
            self.wf(),
            self.year < MAX_MODEL_YEAR,
        ensures
            r.wf(),
            r.days == self.days + 1,
            r.year as int <= self.year as int + 1,
    {
        proof {
            lemma_wf_days_bounds(*self);
        }
        let len = Self::month_len(self.year, self.month);
        if self.day < len {
            LocalDate { year: self.year, month: self.month, day: self.day + 1, days: self.days + 1 }
        } else if self.month < 12 {
            LocalDate { year: self.year, month: self.month + 1, day: 1, days: self.days + 1 }
        } else {
            let y = self.year + 1;
            proof {
                lemma_year_start_step(self.year as int);
                lemma_month_prefix_total(self.year as int);
                reveal_with_fuel(month_prefix_days, 13);
            }
            LocalDate { year: y, month: 1, day: 1, days: self.days + 1 }
        }
    }
}

/// Weekday of a day number, counted from Sunday = 0. Day 1 (January 1 of
/// year 1) is a Monday, and day numbers congruent to 4 modulo 7 fall on
/// Thursdays (such as day 719163, January 1 of 1970).
pub open spec fn weekday_sun0(days: int) -> int {
    days % 7
}

/// How many days a date lies past the most recent day whose weekday is
/// `w - 1` (for a week-start setting `w` with 1 = Sunday .. 7 = Saturday).
pub open spec fn days_back_to_week_start(days: int, w: int) -> int {
    (weekday_sun0(days) - (w - 1)) % 7
}

/// Day number of the first day of the week containing `days`, under
/// week-start setting `w`.
pub open spec fn week_start_days(days: int, w: int) -> int {
    days - days_back_to_week_start(days, w)
}

/// Two day numbers fall in the same configured week iff their week starts
/// coincide.
pub open spec fn same_week_days(a: int, b: int, w: int) -> bool {
    week_start_days(a, w) == week_start_days(b, w)
}

/// The distance back to the week start is between 0 and 6 days.
pub proof fn lemma_days_back_range(days: int, w: int)
    ensures
        0 <= days_back_to_week_start(days, w) < 7,
        week_start_days(days, w) <= days < week_start_days(days, w) + 7,
{
    vstd::arithmetic::div_mod::lemma_mod_bound(weekday_sun0(days) - (w - 1), 7);
}

/// The week start itself falls on the configured weekday.
pub proof fn lemma_week_start_weekday(days: int, w: int)
    requires
        1 <= w <= 7,
    ensures
        weekday_sun0(week_start_days(days, w)) == w - 1,
{
    let t = w - 1;
    let r = days % 7;
    vstd::arithmetic::div_mod::lemma_mod_bound(days, 7);
    vstd::arithmetic::div_mod::lemma_fundamental_div_mod(days, 7);
    let q = days / 7;
    if r >= t {
        assert(r - t == 0 * 7 + (r - t)) by (nonlinear_arith);
        vstd::arithmetic::div_mod::lemma_fundamental_div_mod_converse(r - t, 7, 0, r - t);
        assert(days - (r - t) == q * 7 + t) by (nonlinear_arith)
            requires
                days == 7 * q + r,
        ;
        vstd::arithmetic::div_mod::lemma_fundamental_div_mod_converse(days - (r - t), 7, q, t);
    } else {
        assert(r - t == (-1) * 7 + (r - t + 7)) by (nonlinear_arith);
        vstd::arithmetic::div_mod::lemma_fundamental_div_mod_converse(r - t, 7, -1, r - t + 7);
        assert(days - (r - t + 7) == (q - 1) * 7 + t) by (nonlinear_arith)
            requires
                days == 7 * q + r,
        ;
        vstd::arithmetic::div_mod::lemma_fundamental_div_mod_converse(days - (r - t + 7), 7, q - 1, t);
    }
}

/// Taking the week start of a week start changes nothing.
pub proof fn lemma_week_start_idempotent(days: int, w: int)
    requires
        1 <= w <= 7,
    ensures
        week_start_days(week_start_days(days, w), w) == week_start_days(days, w),
{
    let ws = week_start_days(days, w);
    lemma_week_start_weekday(days, w);
    assert(0 == 0 * 7 + 0) by (nonlinear_arith);
    vstd::arithmetic::div_mod::lemma_fundamental_div_mod_converse(0, 7, 0, 0);
}

/// The week start of a day number lies in the same configured week.
pub proof fn lemma_week_start_same_week(days: int, w: int)
    requires
        1 <= w <= 7,
    ensures
        same_week_days(week_start_days(days, w), days, w),
{
    lemma_week_start_idempotent(days, w);
}

impl LocalDate {
    /// Weekday of `self`, counted from Sunday = 0.
    pub fn weekday(&self) -> (r: u8)
        requires
            self.wf(),
        ensures
            r as int == weekday_sun0(self.days as int),
            r < 7,
    {
        proof {
            lemma_wf_days_bounds(*self);
            vstd::arithmetic::div_mod::lemma_mod_multiples_vanish(
                100_000_000,
                self.days as int,
                7,
            );
            vstd::arithmetic::div_mod::lemma_mod_bound(self.days as int, 7);
        }
        let s: u64 = (self.days + 700_000_000) as u64;
        (s % 7) as u8
    }
}

/// Day number of the week start of `days` under week-start setting `w`.
pub fn week_start_of_days(days: i64, w: i32) -> (r: i64)
    requires
        -96_000_000 < days < 96_000_000,
        1 <= w <= 7,
    ensures
        r as int == week_start_days(days as int, w as int),
{
    proof {
        vstd::arithmetic::div_mod::lemma_mod_multiples_vanish(100_000_000, days as int, 7);
        vstd::arithmetic::div_mod::lemma_mod_bound(days as int, 7);
    }
    let s: u64 = (days + 700_000_000) as u64;
    let wd: u64 = s % 7;
    let target: u64 = (w - 1) as u64;
    let back: u64 = (wd + 7 - target) % 7;
    proof {
        let diff = weekday_sun0(days as int) - (w as int - 1);
        vstd::arithmetic::div_mod::lemma_mod_add_multiples_vanish(diff, 7);
        vstd::arithmetic::div_mod::lemma_mod_bound(diff + 7, 7);
    }
    days - back as i64
}

impl LocalDate {
    /// The date of the first day of the week containing `self`, walking
    /// back day by day (at most six whole calendar days, so daylight
    /// saving shifts never stretch or shrink the step).
    pub fn week_start_date(&self, w: i32) -> (r: LocalDate)
        requires
            self.wf(),
            1 <= w <= 7,
            self.year > MIN_MODEL_YEAR + 1,
        ensures
            r.wf(),
            r.days as int == week_start_days(self.days as int, w as int),
    {
        proof {
            lemma_wf_days_bounds(*self);
            lemma_days_back_range(self.days as int, w as int);
        }
        let target: i64 = week_start_of_days(self.days, w);
        let mut cur = LocalDate { year: self.year, month: self.month, day: self.day, days: self.days };
        proof {
            lemma_date_days_bounds(self.year as int, self.month as int, self.day as int);
            lemma_year_start_step(self.year as int - 1);
        }
        while cur.days > target
            invariant
                cur.wf(),
                1 <= w <= 7,
                target as int == week_start_days(self.days as int, w as int),
                target <= cur.days <= self.days,
                self.wf(),
                self.year > MIN_MODEL_YEAR + 1,
                target as int > year_start_days(self.year as int - 1),
            decreases cur.days - target,
        {
            proof {
                lemma_year_lower_bound(cur, self.year as int - 1);
            }
            cur = cur.prev_day();
        }
        cur
    }

    /// The first day of the month containing `self`.
    pub fn month_start_date(&self) -> (r: LocalDate)
        requires
            self.wf(),
        ensures
            r.wf(),
            r.year == self.year,
            r.month == self.month,
            r.day == 1,
            r.days == self.days - (self.day - 1),
    {
        proof {
            lemma_wf_days_bounds(*self);
        }
        LocalDate {
            year: self.year,
            month: self.month,
            day: 1,
            days: self.days - (self.day as i64 - 1),
        }
    }

    /// Whether `self` and `other` are the same calendar day; equivalently
    /// (and as the executable comparison) whether their day numbers agree.
    pub fn same_day(&self, other: &LocalDate) -> (r: bool)
        requires
            self.wf(),
            other.wf(),
        ensures
            r == (self.days == other.days),
            r == (self.year == other.year && self.month == other.month && self.day == other.day),
    {
        proof {
            if self.days == other.days {
                lemma_date_days_inj(
                    self.year as int,
                    self.month as int,
                    self.day as int,
                    other.year as int,
                    other.month as int,
                    other.day as int,
                );
            }
        }
        self.days == other.days
    }

    /// Whether `self` and `other` fall in the same week under week-start
    /// setting `w`.
    pub fn same_week(&self, other: &LocalDate, w: i32) -> (r: bool)
        requires
            self.wf(),
            other.wf(),
            1 <= w <= 7,
        ensures
            r == same_week_days(self.days as int, other.days as int, w as int),
    {
        proof {
            lemma_wf_days_bounds(*self);
            lemma_wf_days_bounds(*other);
        }
        week_start_of_days(self.days, w) == week_start_of_days(other.days, w)
    }

    /// Whether `self` and `other` fall in the same calendar month.
    pub fn same_month(&self, other: &LocalDate) -> (r: bool)
        requires
            self.wf(),
            other.wf(),
        ensures
            r == (self.year == other.year && self.month == other.month),
    {
        self.year == other.year && self.month == other.month
    }
}

/// The year whose days include day number `days`: the unique `y` with
/// `year_start_days(y) < days <= year_start_days(y) + year_length(y)`.
pub open spec fn year_of_days(days: int) -> int {
    choose|y: int| #[trigger] year_start_days(y) < days <= year_start_days(y) + year_length(y)
}

/// Day of year (1-based) of day number `days`.
pub open spec fn ordinal_of_days(days: int) -> int {
    days - year_start_days(year_of_days(days))
}

/// Searching upward from a year known to start before `days` finds the
/// year containing `days`.
proof fn lemma_find_year(days: int, y: int)
    requires
        year_start_days(y) < days,
        days <= year_start_days(MAX_MODEL_YEAR as int + 1),
    ensures
        exists|yy: int|
            yy <= MAX_MODEL_YEAR as int && #[trigger] year_start_days(yy) < days <= year_start_days(
                yy,
            ) + year_length(yy),
    decreases days - year_start_days(y),
{
    lemma_year_start_step(y);
    if days <= year_start_days(y) + year_length(y) {
        assert(y <= MAX_MODEL_YEAR as int) by {
            if y > MAX_MODEL_YEAR as int {
                if y > MAX_MODEL_YEAR as int + 1 {
                    lemma_year_start_mono(MAX_MODEL_YEAR as int + 1, y);
                }
            }
        }
        assert(year_start_days(y) < days <= year_start_days(y) + year_length(y));
    } else {
        lemma_find_year(days, y + 1);
    }
}

/// The year containing a day number is unique, so a witness pins down
/// `year_of_days` and `ordinal_of_days`.
pub proof fn lemma_year_of_days_unique(days: int, y: int)
    requires
        year_start_days(y) < days <= year_start_days(y) + year_length(y),
    ensures
        year_of_days(days) == y,
        ordinal_of_days(days) == days - year_start_days(y),
{
    let y2 = year_of_days(days);
    assert(year_start_days(y2) < days <= year_start_days(y2) + year_length(y2));
    lemma_year_start_step(y);
    lemma_year_start_step(y2);
    if y2 < y {
        lemma_year_start_mono(y2 + 1, y + 1);
        if y2 + 1 < y {
            lemma_year_start_mono(y2 + 1, y);
        }
    } else if y < y2 {
        if y + 1 < y2 {
            lemma_year_start_mono(y + 1, y2);
        }
    }
}

/// A well-formed date is a witness for `year_of_days` at its own day
/// number.
pub proof fn lemma_year_of_days_of_date(d: LocalDate)
    requires
        d.wf(),
    ensures
        year_of_days(d.days as int) == d.year as int,
        ordinal_of_days(d.days as int) == day_of_year(d.year as int, d.month as int, d.day as int),
{
    lemma_date_days_bounds(d.year as int, d.month as int, d.day as int);
    lemma_year_of_days_unique(d.days as int, d.year as int);
}

impl LocalDate {
    /// The date with day number `target`, reached from the nearby date
    /// `self` by whole-day steps.
    pub fn date_at_days(&self, target: i64) -> (r: LocalDate)
        requires
            self.wf(),
            MIN_MODEL_YEAR + 2 <= self.year <= MAX_MODEL_YEAR - 2,
            self.days - 16 <= target <= self.days + 16,
        ensures
            r.wf(),
            r.days == target,
    {
        proof {
            lemma_wf_days_bounds(*self);
            lemma_date_days_bounds(self.year as int, self.month as int, self.day as int);
            lemma_year_start_step(self.year as int - 1);
            lemma_year_start_step(self.year as int);
            lemma_year_start_step(self.year as int + 1);
        }
        let mut cur = LocalDate { year: self.year, month: self.month, day: self.day, days: self.days };
        if target <= self.days {
            while cur.days > target
                invariant
                    cur.wf(),
                    target <= cur.days <= self.days,
                    self.wf(),
                    MIN_MODEL_YEAR + 2 <= self.year <= MAX_MODEL_YEAR - 2,
                    self.days - 16 <= target,
                    target as int > year_start_days(self.year as int - 1),
                decreases cur.days - target,
            {
                proof {
                    lemma_year_lower_bound(cur, self.year as int - 1);
                }
                cur = cur.prev_day();
            }
        } else {
            while cur.days < target
                invariant
                    cur.wf(),
                    cur.days <= target <= self.days + 16,
                    self.wf(),
                    MIN_MODEL_YEAR + 2 <= self.year <= MAX_MODEL_YEAR - 2,
                    target as int <= year_start_days(self.year as int + 1) + year_length(
                        self.year as int + 1,
                    ),
                decreases target - cur.days,
            {
                proof {
                    lemma_date_days_bounds(cur.year as int, cur.month as int, cur.day as int);
                    if cur.year as int >= self.year as int + 2 {
                        lemma_year_start_mono(self.year as int + 1, cur.year as int);
                        lemma_year_start_step(cur.year as int);
                    }
                }
                cur = cur.next_day();
            }
        }
        cur
    }
}

/// Day number of the Thursday of the ISO week (Monday-based) containing
/// `days`. ISO 8601 assigns a week to the year containing its Thursday.
pub open spec fn iso_thursday(days: int) -> int {
    days - ((days + 6) % 7) + 3
}

/// ISO week-based year of day number `days`.
pub open spec fn iso_year_of(days: int) -> int {
    year_of_days(iso_thursday(days))
}

/// ISO week number (1..=53) of day number `days`.
pub open spec fn iso_week_no(days: int) -> int {
    (ordinal_of_days(iso_thursday(days)) + 6) / 7
}

/// Day numbers comfortably inside the modelled year range, with room
/// for a week of slack on either side.
pub open spec fn days_in_model(days: int) -> bool {
    year_start_days(MIN_MODEL_YEAR as int + 2) < days <= year_start_days(MAX_MODEL_YEAR as int - 2)
}

/// For a day number inside the modelled range, its ISO week's Thursday
/// falls in the ISO year's span and the week number is between 1 and 53.
pub proof fn lemma_iso_fields_bounds(days: int)
    requires
        year_start_days(MIN_MODEL_YEAR as int + 1) < days,
        days <= year_start_days(MAX_MODEL_YEAR as int - 1),
    ensures
        ({
            let th = iso_thursday(days);
            let y = iso_year_of(days);
            &&& year_start_days(y) < th <= year_start_days(y) + year_length(y)
            &&& year_of_days(th) == y
            &&& ordinal_of_days(th) == th - year_start_days(y)
            &&& 1 <= iso_week_no(days) <= 53
        }),
{
    let th = iso_thursday(days);
    vstd::arithmetic::div_mod::lemma_mod_bound(days + 6, 7);
    lemma_year_start_step(MIN_MODEL_YEAR as int);
    lemma_year_start_mono(MIN_MODEL_YEAR as int, MIN_MODEL_YEAR as int + 1);
    lemma_year_start_mono(MAX_MODEL_YEAR as int - 1, MAX_MODEL_YEAR as int + 1);
    lemma_find_year(th, MIN_MODEL_YEAR as int);
    let yy = choose|yy: int|
        yy <= MAX_MODEL_YEAR as int && #[trigger] year_start_days(yy) < th <= year_start_days(yy)
            + year_length(yy);
    lemma_year_of_days_unique(th, yy);
    let ord = ordinal_of_days(th);
    vstd::arithmetic::div_mod::lemma_div_is_ordered(7, ord + 6, 7);
    vstd::arithmetic::div_mod::lemma_div_is_ordered(ord + 6, 372, 7);
    assert(372 == 53 * 7 + 1) by (nonlinear_arith);
    vstd::arithmetic::div_mod::lemma_fundamental_div_mod_converse(372, 7, 53, 1);
    assert(7 == 1 * 7 + 0) by (nonlinear_arith);
    vstd::arithmetic::div_mod::lemma_fundamental_div_mod_converse(7, 7, 1, 0);
}

/// A day number well past the start of year 1 has an ISO year of at
/// least 1.
pub proof fn lemma_iso_year_positive(days: int)
    requires
        year_start_days(MIN_MODEL_YEAR as int + 1) < days,
        days <= year_start_days(MAX_MODEL_YEAR as int - 1),
        days >= 10,
    ensures
        iso_year_of(days) >= 1,
{
    lemma_iso_fields_bounds(days);
    let y = iso_year_of(days);
    let th = iso_thursday(days);
    vstd::arithmetic::div_mod::lemma_mod_bound(days + 6, 7);
    if y < 1 {
        lemma_year_start_step(y);
        if y + 1 < 1 {
            lemma_year_start_mono(y + 1, 1);
        }
    }
}

impl LocalDate {
    /// Day of year (1-based) of `self`.
    pub fn ordinal(&self) -> (r: u16)
        requires
            self.wf(),
        ensures
            r as int == day_of_year(self.year as int, self.month as int, self.day as int),
            1 <= r <= 366,
    {
        proof {
            lemma_day_of_year_bounds(self.year as int, self.month as int, self.day as int);
        }
        Self::month_prefix(self.year, self.month) + self.day as u16
    }

    /// The ISO week-based year and week number of `self`, as the pair
    /// `(year, week)`.
    pub fn iso_week(&self) -> (r: (i32, u8))
        requires
            self.wf(),
            MIN_MODEL_YEAR + 2 <= self.year <= MAX_MODEL_YEAR - 2,
        ensures
            r.0 as int == iso_year_of(self.days as int),
            r.1 as int == iso_week_no(self.days as int),
            1 <= r.1 <= 53,
            self.days >= 4 ==> r.0 >= 1,
    {
        proof {
            lemma_wf_days_bounds(*self);
            vstd::arithmetic::div_mod::lemma_mod_multiples_vanish(
                100_000_000,
                self.days as int + 6,
                7,
            );
            vstd::arithmetic::div_mod::lemma_mod_bound(self.days as int + 6, 7);
        }
        let s: u64 = (self.days + 700_000_000) as u64;
        let mon0: u8 = ((s + 6) % 7) as u8;
        let th_days: i64 = self.days - mon0 as i64 + 3;
        let th = self.date_at_days(th_days);
        let ord: u16 = th.ordinal();
        let week: u16 = (ord + 6) / 7;
        proof {
            lemma_year_of_days_of_date(th);
            vstd::arithmetic::div_mod::lemma_div_is_ordered(7, ord as int + 6, 7);
            vstd::arithmetic::div_mod::lemma_div_is_ordered(ord as int + 6, 372, 7);
            assert(372 == 53 * 7 + 1) by (nonlinear_arith);
            vstd::arithmetic::div_mod::lemma_fundamental_div_mod_converse(372, 7, 53, 1);
            assert(7 == 1 * 7 + 0) by (nonlinear_arith);
            vstd::arithmetic::div_mod::lemma_fundamental_div_mod_converse(7, 7, 1, 0);
            if self.days >= 4 && th.year < 1 {
                lemma_date_days_bounds(th.year as int, th.month as int, th.day as int);
                if th.year as int + 1 < 1 {
                    lemma_year_start_mono(th.year as int + 1, 1);
                }
                lemma_year_start_step(th.year as int);
            }
        }
        (th.year, week as u8)
    }
}

} // verus!
