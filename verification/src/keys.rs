//! The period key encoder: canonical, collision-free string identities
//! for week and month period instances, rendered by a verified decimal
//! formatter. A weekly key looks like `2025-W52` (the ISO week of the
//! configured week's first day) and a monthly key like `2025-12`.
use vstd::prelude::*;
use vstd::string::StringExecFns;
use crate::calendar::LocalDate;
use crate::calendar::MAX_MODEL_YEAR;
use crate::calendar::MIN_MODEL_YEAR;
use crate::calendar::week_start_days;
use crate::calendar::iso_year_of;
use crate::calendar::iso_week_no;

verus! {

/// The character for decimal digit `d` (0..=9).
pub open spec fn dec_digit(d: int) -> char {
    if d == 0 {
        '0'
    } else if d == 1 {
        '1'
    } else if d == 2 {
        '2'
    } else if d == 3 {
        '3'
    } else if d == 4 {
        '4'
    } else if d == 5 {
        '5'
    } else if d == 6 {
        '6'
    } else if d == 7 {
        '7'
    } else if d == 8 {
        '8'
    } else {
        '9'
    }
}

/// Decimal rendering of a positive integer, most significant digit
/// first; the empty sequence for arguments below 1.
pub open spec fn dec_chars(n: int) -> Seq<char>
    decreases n,
{
    if n <= 0 {
        Seq::empty()
    } else {
        dec_chars(n / 10).push(dec_digit(n % 10))
    }
}

/// Two-digit zero-padded rendering of `n` (0..=99).
pub open spec fn two_digit_chars(n: int) -> Seq<char> {
    seq![dec_digit(n / 10), dec_digit(n % 10)]
}

/// The weekly period key text for ISO week `wk` of ISO year `y`.
pub open spec fn week_key_chars(y: int, wk: int) -> Seq<char> {
    dec_chars(y) + seq!['-', 'W'] + two_digit_chars(wk)
}

/// The monthly period key text for month `m` of year `y`.
pub open spec fn month_key_chars(y: int, m: int) -> Seq<char> {
    dec_chars(y) + seq!['-'] + two_digit_chars(m)
}

/// The weekly key of the week containing day number `days` under
/// week-start setting `w`: the ISO week of that week's first day.
pub open spec fn week_key_of(days: int, w: int) -> Seq<char> {
    week_key_chars(iso_year_of(week_start_days(days, w)), iso_week_no(week_start_days(days, w)))
}

/// A one-character string slice for decimal digit `d`.
fn digit_str(d: u64) -> (r: &'static str)
    requires
        d < 10,
    ensures
        r@ == seq![dec_digit(d as int)],
{
    proof {
        reveal_strlit("0");
        reveal_strlit("1");
        reveal_strlit("2");
        reveal_strlit("3");
        reveal_strlit("4");
        reveal_strlit("5");
        reveal_strlit("6");
        reveal_strlit("7");
        reveal_strlit("8");
        reveal_strlit("9");
    }
    let r = if d == 0 {
        "0"
    } else if d == 1 {
        "1"
    } else if d == 2 {
        "2"
    } else if d == 3 {
        "3"
    } else if d == 4 {
        "4"
    } else if d == 5 {
        "5"
    } else if d == 6 {
        "6"
    } else if d == 7 {
        "7"
    } else if d == 8 {
        "8"
    } else {
        "9"
    };
    proof {
        assert(r@ =~= seq![dec_digit(d as int)]);
    }
    r
}

/// Decimal rendering of a positive integer.
pub fn dec_string(n: u64) -> (r: String)
    requires
        n >= 1,
    ensures
        r@ == dec_chars(n as int),
    decreases n,
{
    proof {
        vstd::arithmetic::div_mod::lemma_mod_bound(n as int, 10);
    }
    if n < 10 {
        proof {
            reveal_with_fuel(dec_chars, 2);
            vstd::arithmetic::div_mod::lemma_basic_div(n as int, 10);
            vstd::arithmetic::div_mod::lemma_small_mod(n as nat, 10);
        }
        let r = String::from_str(digit_str(n));
        proof {
            assert(r@ =~= dec_chars(n as int));
        }
        r
    } else {
        proof {
            vstd::arithmetic::div_mod::lemma_div_pos_is_pos(n as int, 10);
            vstd::arithmetic::div_mod::lemma_div_is_strictly_smaller(n as int, 10);
        }
        let mut r = dec_string(n / 10);
        r.append(digit_str(n % 10));
        proof {
            assert(r@ =~= dec_chars(n as int));
        }
        r
    }
}

/// Two-digit zero-padded rendering of `n` (0..=99).
pub fn two_digit_string(n: u64) -> (r: String)
    requires
        n < 100,
    ensures
        r@ == two_digit_chars(n as int),
{
    proof {
        vstd::arithmetic::div_mod::lemma_mod_bound(n as int, 10);
        vstd::arithmetic::div_mod::lemma_div_pos_is_pos(n as int, 10);
        vstd::arithmetic::div_mod::lemma_div_is_ordered(n as int, 99, 10);
        assert(99 == 9 * 10 + 9) by (nonlinear_arith);
        vstd::arithmetic::div_mod::lemma_fundamental_div_mod_converse(99, 10, 9, 9);
    }
    let mut r = String::from_str(digit_str(n / 10));
    r.append(digit_str(n % 10));
    proof {
        assert(r@ =~= two_digit_chars(n as int));
    }
    r
}

impl LocalDate {
    /// The weekly period key of the week containing `self`, under
    /// week-start setting `w`; `None` when that week precedes year 1,
    /// outside the window the key grammar covers.
    pub fn week_key(&self, w: i32) -> (r: Option<String>)
        requires
            self.wf(),
            1 <= w <= 7,
            MIN_MODEL_YEAR + 3 <= self.year <= MAX_MODEL_YEAR - 2,
        ensures
            r is Some <==> iso_year_of(week_start_days(self.days as int, w as int)) >= 1,
            r is Some ==> r->Some_0@ == week_key_of(self.days as int, w as int),
    {
        let ws = self.week_start_date(w);
        proof {
            crate::calendar::lemma_wf_days_bounds(*self);
            crate::calendar::lemma_days_back_range(self.days as int, w as int);
            crate::calendar::lemma_date_days_bounds(
                self.year as int,
                self.month as int,
                self.day as int,
            );
            crate::calendar::lemma_year_start_step(self.year as int - 1);
            crate::calendar::lemma_year_lower_bound(ws, self.year as int - 1);
            crate::calendar::lemma_year_start_step(self.year as int);
            crate::calendar::lemma_year_upper_bound(ws, self.year as int);
        }
        let iso = ws.iso_week();
        if iso.0 < 1 {
            return None;
        }
        let mut r = dec_string(iso.0 as u64);
        r.append("-W");
        let tail = two_digit_string(iso.1 as u64);
        r.append(tail.as_str());
        proof {
            reveal_strlit("-W");
            assert(r@ =~= week_key_of(self.days as int, w as int));
        }
        Some(r)
    }

    /// The monthly period key of the month containing `self`; `None`
    /// for years before year 1, outside the window the key grammar
    /// covers.
    pub fn month_key(&self) -> (r: Option<String>)
        requires
            self.wf(),
        ensures
            r is Some <==> self.year >= 1,
            r is Some ==> r->Some_0@ == month_key_chars(self.year as int, self.month as int),
    {
        if self.year < 1 {
            return None;
        }
        let mut r = dec_string(self.year as u64);
        r.append("-");
        let tail = two_digit_string(self.month as u64);
        r.append(tail.as_str());
        proof {
            reveal_strlit("-");
            assert(r@ =~= month_key_chars(self.year as int, self.month as int));
        }
        Some(r)
    }
}

/// Distinct digits render as distinct characters.
proof fn lemma_dec_digit_inj(x: int, y: int)
    requires
        0 <= x < 10,
        0 <= y < 10,
        dec_digit(x) == dec_digit(y),
    ensures
        x == y,
{
}

/// A positive integer renders as at least one character.
proof fn lemma_dec_chars_len(n: int)
    requires
        n >= 1,
    ensures
        dec_chars(n).len() >= 1,
{
}

/// The ten decimal digit characters.
pub open spec fn is_dec_digit(c: char) -> bool {
    c == '0' || c == '1' || c == '2' || c == '3' || c == '4' || c == '5' || c == '6' || c == '7'
        || c == '8' || c == '9'
}

/// The value of a decimal digit character (and -1 for any other
/// character).
pub open spec fn digit_val(c: char) -> int {
    if c == '0' {
        0
    } else if c == '1' {
        1
    } else if c == '2' {
        2
    } else if c == '3' {
        3
    } else if c == '4' {
        4
    } else if c == '5' {
        5
    } else if c == '6' {
        6
    } else if c == '7' {
        7
    } else if c == '8' {
        8
    } else if c == '9' {
        9
    } else {
        -1
    }
}

/// Digit characters and digit values invert each other.
pub proof fn lemma_digit_char_val(d: int)
    requires
        0 <= d < 10,
    ensures
        digit_val(dec_digit(d)) == d,
        is_dec_digit(dec_digit(d)),
{
}

/// A positive integer renders as one or more digit characters, the
/// first of them nonzero.
pub proof fn lemma_dec_chars_shape(v: int)
    requires
        v >= 1,
    ensures
        dec_chars(v).len() >= 1,
        dec_chars(v)[0] != '0',
        forall|i: int| 0 <= i < dec_chars(v).len() ==> is_dec_digit(#[trigger] dec_chars(v)[i]),
    decreases v,
{
    vstd::arithmetic::div_mod::lemma_mod_bound(v, 10);
    let pre = dec_chars(v / 10);
    if v < 10 {
        reveal_with_fuel(dec_chars, 2);
        vstd::arithmetic::div_mod::lemma_basic_div(v, 10);
        vstd::arithmetic::div_mod::lemma_small_mod(v as nat, 10);
    } else {
        vstd::arithmetic::div_mod::lemma_div_pos_is_pos(v, 10);
        vstd::arithmetic::div_mod::lemma_div_is_strictly_smaller(v, 10);
        lemma_dec_chars_shape(v / 10);
        assert(dec_chars(v)[0] == pre[0]);
        assert forall|i: int| 0 <= i < dec_chars(v).len() implies is_dec_digit(
            #[trigger] dec_chars(v)[i],
        ) by {
            if i < pre.len() {
                assert(dec_chars(v)[i] == pre[i]);
            } else {
                assert(dec_chars(v)[i] == dec_digit(v % 10));
                lemma_digit_char_val(v % 10);
            }
        }
    }
}

/// A strictly shorter decimal rendering that prefixes a longer one
/// names a value at most a tenth as large.
pub proof fn lemma_dec_chars_prefix_bound(x: int, y: int)
    requires
        x >= 1,
        y >= 1,
        dec_chars(x).len() < dec_chars(y).len(),
        dec_chars(x) == dec_chars(y).subrange(0, dec_chars(x).len() as int),
    ensures
        y >= 10 * x,
    decreases y,
{
    lemma_dec_chars_shape(x);
    lemma_dec_chars_shape(y);
    vstd::arithmetic::div_mod::lemma_mod_bound(y, 10);
    vstd::arithmetic::div_mod::lemma_fundamental_div_mod(y, 10);
    let py = dec_chars(y / 10);
    let lx = dec_chars(x).len() as int;
    if y < 10 {
        vstd::arithmetic::div_mod::lemma_basic_div(y, 10);
        reveal_with_fuel(dec_chars, 2);
        assert(dec_chars(y).len() == 1);
    } else {
        vstd::arithmetic::div_mod::lemma_div_pos_is_pos(y, 10);
        vstd::arithmetic::div_mod::lemma_div_is_strictly_smaller(y, 10);
        assert(lx <= py.len());
        assert forall|i: int| 0 <= i < lx implies dec_chars(x)[i] == py[i] by {
            assert(dec_chars(x)[i] == dec_chars(y)[i]);
            assert(dec_chars(y)[i] == py[i]);
        }
        if lx == py.len() {
            assert(dec_chars(x) =~= py);
            lemma_dec_chars_inj(x, y / 10);
        } else {
            assert(dec_chars(x) =~= py.subrange(0, lx));
            lemma_dec_chars_prefix_bound(x, y / 10);
        }
    }
}

/// Decimal rendering is injective on positive integers.
pub proof fn lemma_dec_chars_inj(a: int, b: int)
    requires
        a >= 1,
        b >= 1,
        dec_chars(a) == dec_chars(b),
    ensures
        a == b,
    decreases a,
{
    vstd::arithmetic::div_mod::lemma_mod_bound(a as int, 10);
    vstd::arithmetic::div_mod::lemma_mod_bound(b as int, 10);
    let pa = dec_chars(a / 10);
    let pb = dec_chars(b / 10);
    assert(pa.push(dec_digit(a % 10)).last() == dec_digit(a % 10));
    assert(pb.push(dec_digit(b % 10)).last() == dec_digit(b % 10));
    lemma_dec_digit_inj(a % 10, b % 10);
    assert(dec_chars(a).len() == pa.len() + 1);
    assert(dec_chars(b).len() == pb.len() + 1);
    assert forall|i: int| 0 <= i < pa.len() implies pa[i] == pb[i] by {
        assert(pa.push(dec_digit(a % 10))[i] == pa[i]);
        assert(pb.push(dec_digit(b % 10))[i] == pb[i]);
    }
    assert(pa =~= pb);
    if a < 10 && b < 10 {
        vstd::arithmetic::div_mod::lemma_small_mod(a as nat, 10);
        vstd::arithmetic::div_mod::lemma_small_mod(b as nat, 10);
    } else if a < 10 {
        vstd::arithmetic::div_mod::lemma_basic_div(a, 10);
        vstd::arithmetic::div_mod::lemma_div_pos_is_pos(b, 10);
        lemma_dec_chars_len(b / 10);
    } else if b < 10 {
        vstd::arithmetic::div_mod::lemma_basic_div(b, 10);
        vstd::arithmetic::div_mod::lemma_div_pos_is_pos(a, 10);
        lemma_dec_chars_len(a / 10);
    } else {
        vstd::arithmetic::div_mod::lemma_div_pos_is_pos(a, 10);
        vstd::arithmetic::div_mod::lemma_div_is_strictly_smaller(a, 10);
        vstd::arithmetic::div_mod::lemma_div_pos_is_pos(b, 10);
        lemma_dec_chars_inj(a / 10, b / 10);
        vstd::arithmetic::div_mod::lemma_fundamental_div_mod(a, 10);
        vstd::arithmetic::div_mod::lemma_fundamental_div_mod(b, 10);
    }
}

/// Two-digit rendering is injective on 0..=99.
proof fn lemma_two_digit_inj(x: int, y: int)
    requires
        0 <= x < 100,
        0 <= y < 100,
        two_digit_chars(x) == two_digit_chars(y),
    ensures
        x == y,
{
    vstd::arithmetic::div_mod::lemma_mod_bound(x, 10);
    vstd::arithmetic::div_mod::lemma_mod_bound(y, 10);
    vstd::arithmetic::div_mod::lemma_div_pos_is_pos(x, 10);
    vstd::arithmetic::div_mod::lemma_div_is_ordered(x, 99, 10);
    vstd::arithmetic::div_mod::lemma_div_pos_is_pos(y, 10);
    vstd::arithmetic::div_mod::lemma_div_is_ordered(y, 99, 10);
    assert(99 == 9 * 10 + 9) by (nonlinear_arith);
    vstd::arithmetic::div_mod::lemma_fundamental_div_mod_converse(99, 10, 9, 9);
    assert(two_digit_chars(x)[0] == dec_digit(x / 10));
    assert(two_digit_chars(x)[1] == dec_digit(x % 10));
    lemma_dec_digit_inj(x / 10, y / 10);
    lemma_dec_digit_inj(x % 10, y % 10);
    vstd::arithmetic::div_mod::lemma_fundamental_div_mod(x, 10);
    vstd::arithmetic::div_mod::lemma_fundamental_div_mod(y, 10);
}

/// Splitting a concatenation with a shared middle and equal-length
/// tails recovers the parts.
proof fn lemma_concat_parts_inj(
    a1: Seq<char>,
    t1: Seq<char>,
    a2: Seq<char>,
    t2: Seq<char>,
    mid: Seq<char>,
)
    requires
        t1.len() == t2.len(),
        a1 + mid + t1 == a2 + mid + t2,
    ensures
        a1 == a2,
        t1 == t2,
{
    let f1 = a1 + mid + t1;
    let f2 = a2 + mid + t2;
    assert(f1.len() == a1.len() + mid.len() + t1.len());
    assert(f2.len() == a2.len() + mid.len() + t2.len());
    assert(a1.len() == a2.len());
    assert forall|i: int| 0 <= i < a1.len() implies a1[i] == a2[i] by {
        assert((a1 + mid)[i] == a1[i]);
        assert(f1[i] == (a1 + mid)[i]);
        assert((a2 + mid)[i] == a2[i]);
        assert(f2[i] == (a2 + mid)[i]);
    }
    assert(a1 =~= a2);
    assert forall|j: int| 0 <= j < t1.len() implies t1[j] == t2[j] by {
        assert(f1[a1.len() + mid.len() + j] == t1[j]);
        assert(f2[a2.len() + mid.len() + j] == t2[j]);
    }
    assert(t1 =~= t2);
}

/// Weekly key texts are collision-free: equal keys name the same ISO
/// year and week.
pub proof fn lemma_week_key_chars_inj(y1: int, k1: int, y2: int, k2: int)
    requires
        y1 >= 1,
        y2 >= 1,
        0 <= k1 < 100,
        0 <= k2 < 100,
        week_key_chars(y1, k1) == week_key_chars(y2, k2),
    ensures
        y1 == y2,
        k1 == k2,
{
    lemma_concat_parts_inj(
        dec_chars(y1),
        two_digit_chars(k1),
        dec_chars(y2),
        two_digit_chars(k2),
        seq!['-', 'W'],
    );
    lemma_dec_chars_inj(y1, y2);
    lemma_two_digit_inj(k1, k2);
}

/// Monthly key texts are collision-free: equal keys name the same year
/// and month.
pub proof fn lemma_month_key_chars_inj(y1: int, m1: int, y2: int, m2: int)
    requires
        y1 >= 1,
        y2 >= 1,
        0 <= m1 < 100,
        0 <= m2 < 100,
        month_key_chars(y1, m1) == month_key_chars(y2, m2),
    ensures
        y1 == y2,
        m1 == m2,
{
    lemma_concat_parts_inj(
        dec_chars(y1),
        two_digit_chars(m1),
        dec_chars(y2),
        two_digit_chars(m2),
        seq!['-'],
    );
    lemma_dec_chars_inj(y1, y2);
    lemma_two_digit_inj(m1, m2);
}

/// Weekly period keys identify configured weeks exactly: two day
/// numbers get the same weekly key if and only if they lie in the same
/// week under week-start setting `w`. (Keys exist here because both
/// weeks' ISO years are at least 1.)
pub proof fn lemma_week_key_identifies_week(a: int, b: int, w: int)
    requires
        1 <= w <= 7,
        crate::calendar::days_in_model(a),
        crate::calendar::days_in_model(b),
        iso_year_of(week_start_days(a, w)) >= 1,
        iso_year_of(week_start_days(b, w)) >= 1,
    ensures
        (week_key_of(a, w) == week_key_of(b, w)) <==> crate::calendar::same_week_days(a, b, w),
{
    let wsa = week_start_days(a, w);
    let wsb = week_start_days(b, w);
    crate::calendar::lemma_days_back_range(a, w);
    crate::calendar::lemma_days_back_range(b, w);
    crate::calendar::lemma_year_start_step(crate::calendar::MIN_MODEL_YEAR as int + 1);
    crate::calendar::lemma_year_start_mono(
        crate::calendar::MAX_MODEL_YEAR as int - 2,
        crate::calendar::MAX_MODEL_YEAR as int - 1,
    );
    crate::calendar::lemma_iso_fields_bounds(wsa);
    crate::calendar::lemma_iso_fields_bounds(wsb);
    if week_key_of(a, w) == week_key_of(b, w) {
        let ya = iso_year_of(wsa);
        let yb = iso_year_of(wsb);
        let ka = iso_week_no(wsa);
        let kb = iso_week_no(wsb);
        lemma_week_key_chars_inj(ya, ka, yb, kb);
        let y = ya;
        let tha = crate::calendar::iso_thursday(wsa);
        let thb = crate::calendar::iso_thursday(wsb);
        crate::calendar::lemma_week_start_weekday(a, w);
        crate::calendar::lemma_week_start_weekday(b, w);
        let ra = (wsa + 6) % 7;
        let rb = (wsb + 6) % 7;
        assert(ra == rb) by {
            vstd::arithmetic::div_mod::lemma_add_mod_noop(wsa, 6, 7);
            vstd::arithmetic::div_mod::lemma_add_mod_noop(wsb, 6, 7);
        }
        assert(tha % 7 == thb % 7) by {
            vstd::arithmetic::div_mod::lemma_add_mod_noop(wsa, 3 - ra, 7);
            vstd::arithmetic::div_mod::lemma_add_mod_noop(wsb, 3 - rb, 7);
        }
        let orda = crate::calendar::ordinal_of_days(tha);
        let ordb = crate::calendar::ordinal_of_days(thb);
        assert((orda + 6) % 7 == (ordb + 6) % 7) by {
            vstd::arithmetic::div_mod::lemma_add_mod_noop(
                tha,
                6 - crate::calendar::year_start_days(y),
                7,
            );
            vstd::arithmetic::div_mod::lemma_add_mod_noop(
                thb,
                6 - crate::calendar::year_start_days(y),
                7,
            );
        }
        assert(orda == ordb) by {
            vstd::arithmetic::div_mod::lemma_fundamental_div_mod(orda + 6, 7);
            vstd::arithmetic::div_mod::lemma_fundamental_div_mod(ordb + 6, 7);
        }
        assert(wsa == wsb);
    }
}

/// Monthly period keys identify months exactly: equal keys mean equal
/// year and month, and conversely.
pub proof fn lemma_month_key_identifies_month(y1: int, m1: int, y2: int, m2: int)
    requires
        y1 >= 1,
        y2 >= 1,
        1 <= m1 <= 12,
        1 <= m2 <= 12,
    ensures
        (month_key_chars(y1, m1) == month_key_chars(y2, m2)) <==> (y1 == y2 && m1 == m2),
{
    if month_key_chars(y1, m1) == month_key_chars(y2, m2) {
        lemma_month_key_chars_inj(y1, m1, y2, m2);
    }
}

} // verus!
