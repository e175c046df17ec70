//! Small verified text utilities: string-slice equality and the decimal
//! codec used for durable settings values.
use vstd::prelude::*;
use vstd::string::StrSliceExecFns;
use vstd::string::StringExecFns;

verus! {

/// Whether two string slices hold the same characters.
pub fn str_eq(a: &str, b: &str) -> (r: bool)
    ensures
        r == (a@ == b@),
{
    let na = a.unicode_len();
    let nb = b.unicode_len();
    if na != nb {
        return false;
    }
    let mut i: usize = 0;
    while i < na
        invariant
            na == a@.len(),
            na == b@.len(),
            0 <= i <= na,
            forall|j: int| 0 <= j < i ==> a@[j] == b@[j],
        decreases na - i,
    {
        if a.get_char(i) != b.get_char(i) {
            return false;
        }
        i = i + 1;
    }
    proof {
        assert(a@ =~= b@);
    }
    true
}

/// Canonical decimal text of an integer: no sign for zero or positive
/// values, a leading minus for negative ones, never a leading zero.
pub open spec fn int_chars(v: int) -> Seq<char> {
    if v == 0 {
        seq!['0']
    } else if v < 0 {
        seq!['-'] + crate::keys::dec_chars(-v)
    } else {
        crate::keys::dec_chars(v)
    }
}

/// Shape of canonical decimal text, by sign.
pub proof fn lemma_int_chars_shape(v: int)
    ensures
        int_chars(v).len() >= 1,
        v == 0 ==> int_chars(v) == seq!['0'],
        v > 0 ==> int_chars(v) == crate::keys::dec_chars(v) && int_chars(v)[0] != '0'
            && crate::keys::is_dec_digit(int_chars(v)[0]),
        v < 0 ==> int_chars(v)[0] == '-' && int_chars(v).len() >= 2 && int_chars(v).subrange(
            1,
            int_chars(v).len() as int,
        ) == crate::keys::dec_chars(-v),
{
    if v > 0 {
        crate::keys::lemma_dec_chars_shape(v);
    } else if v < 0 {
        crate::keys::lemma_dec_chars_shape(-v);
        assert(int_chars(v).subrange(1, int_chars(v).len() as int) =~= crate::keys::dec_chars(
            -v,
        ));
    }
}

/// Canonical decimal text is injective.
pub proof fn lemma_int_chars_inj(a: int, b: int)
    requires
        int_chars(a) == int_chars(b),
    ensures
        a == b,
{
    lemma_int_chars_shape(a);
    lemma_int_chars_shape(b);
    if a > 0 && b > 0 {
        crate::keys::lemma_dec_chars_inj(a, b);
    } else if a < 0 && b < 0 {
        crate::keys::lemma_dec_chars_inj(-a, -b);
    }
}

/// The digit value of a character, if it is a decimal digit.
fn digit_of_char(c: char) -> (r: Option<u64>)
    ensures
        r is Some <==> crate::keys::is_dec_digit(c),
        r is Some ==> {
            &&& r->Some_0 < 10
            &&& r->Some_0 as int == crate::keys::digit_val(c)
            &&& crate::keys::dec_digit(r->Some_0 as int) == c
        },
{
    if c == '0' {
        Some(0)
    } else if c == '1' {
        Some(1)
    } else if c == '2' {
        Some(2)
    } else if c == '3' {
        Some(3)
    } else if c == '4' {
        Some(4)
    } else if c == '5' {
        Some(5)
    } else if c == '6' {
        Some(6)
    } else if c == '7' {
        Some(7)
    } else if c == '8' {
        Some(8)
    } else if c == '9' {
        Some(9)
    } else {
        None
    }
}

/// Renders an integer as its canonical decimal text.
pub fn render_i64(v: i64) -> (r: String)
    ensures
        r@ == int_chars(v as int),
{
    if v == 0 {
        let r = String::from_str("0");
        proof {
            reveal_strlit("0");
            assert(r@ =~= int_chars(0));
        }
        r
    } else if v < 0 {
        let mag: u64 = ((-1 - v) as u64) + 1;
        let digits = crate::keys::dec_string(mag);
        let mut r = String::from_str("-");
        r.append(digits.as_str());
        proof {
            reveal_strlit("-");
            assert(r@ =~= int_chars(v as int));
        }
        r
    } else {
        crate::keys::dec_string(v as u64)
    }
}

/// Parses canonical decimal text back to the integer it names:
/// `Some(v)` exactly when the text is `int_chars(v)` for an `i64` value
/// `v`, and `None` for everything else (signs on zero, leading zeros,
/// stray characters, out-of-range values).
pub fn parse_i64(s: &str) -> (r: Option<i64>)
    ensures
        r is Some ==> s@ == int_chars(r->Some_0 as int),
        forall|v: i64| s@ == int_chars(v as int) ==> r == Some(v),
{
    let n = s.unicode_len();
    if n == 0 {
        proof {
            assert forall|v: i64| s@ != int_chars(v as int) by {
                lemma_int_chars_shape(v as int);
            }
        }
        return None;
    }
    let neg = s.get_char(0) == '-';
    let start: usize = if neg {
        1
    } else {
        0
    };
    if n == start {
        proof {
            assert forall|v: i64| s@ != int_chars(v as int) by {
                lemma_int_chars_shape(v as int);
                if s@ == int_chars(v as int) {
                    assert(s@[0] == '-');
                }
            }
        }
        return None;
    }
    let first = s.get_char(start);
    if first == '0' {
        if neg || n > start + 1 {
            proof {
                assert forall|v: i64| s@ != int_chars(v as int) by {
                    lemma_int_chars_shape(v as int);
                    if s@ == int_chars(v as int) {
                        if v == 0 {
                            assert(s@.len() == 1);
                        } else if v > 0 {
                            assert(s@[0] != '0');
                        } else {
                            assert(s@[start as int] == crate::keys::dec_chars(-(v as int))[0]);
                            crate::keys::lemma_dec_chars_shape(-(v as int));
                        }
                    }
                }
            }
            return None;
        }
        proof {
            assert(s@ =~= int_chars(0));
            assert forall|v: i64| s@ == int_chars(v as int) implies v == 0 by {
                lemma_int_chars_inj(v as int, 0);
            }
        }
        return Some(0);
    }
    let mut acc: u64 = 0;
    let mut i: usize = start;
    while i < n
        invariant
            s@.len() == n,
            start <= i <= n,
            start < n,
            start == if neg {
                1int
            } else {
                0int
            },
            neg ==> s@[0] == '-',
            !neg ==> s@[0] != '-',
            s@[start as int] != '0',
            i == start ==> acc == 0,
            i > start ==> 1 <= acc,
            i > start ==> crate::keys::dec_chars(acc as int) == s@.subrange(
                start as int,
                i as int,
            ),
        decreases n - i,
    {
        let c = s.get_char(i);
        let d = match digit_of_char(c) {
            Some(d) => d,
            None => {
                proof {
                    assert forall|v: i64| s@ != int_chars(v as int) by {
                        lemma_int_chars_shape(v as int);
                        if s@ == int_chars(v as int) {
                            if v == 0 {
                                assert(s@[0] == '0');
                            } else if v > 0 {
                                crate::keys::lemma_dec_chars_shape(v as int);
                                assert(crate::keys::is_dec_digit(s@[i as int]));
                            } else {
                                crate::keys::lemma_dec_chars_shape(-(v as int));
                                assert(s@[i as int] == crate::keys::dec_chars(
                                    -(v as int),
                                )[i as int - 1]);
                                assert(crate::keys::is_dec_digit(s@[i as int]));
                            }
                        }
                    }
                }
                return None;
            },
        };
        if acc > 1_844_674_407_370_955_161 || (acc == 1_844_674_407_370_955_161 && d > 5) {
            proof {
                let big = acc as int * 10 + d;
                if acc as int >= 1_844_674_407_370_955_162 {
                    assert(acc as int * 10 >= 18_446_744_073_709_551_620);
                } else {
                    assert(acc as int == 1_844_674_407_370_955_161 && d as int >= 6);
                }
                assert(big > 9_223_372_036_854_775_808);
                lemma_digits_too_big(s@, start as int, i as int, acc as int, d as int, neg);
            }
            return None;
        }
        proof {
            lemma_acc_step(s@, start as int, i as int, acc as int, d as int, c);
        }
        acc = acc * 10 + d;
        i = i + 1;
    }
    if neg {
        if acc > 9_223_372_036_854_775_808 {
            proof {
                lemma_whole_too_big(s@, start as int, acc as int, neg);
            }
            return None;
        }
        let v: i64 = if acc == 9_223_372_036_854_775_808 {
            i64::MIN
        } else {
            -(acc as i64)
        };
        proof {
            assert(s@ =~= seq!['-'] + s@.subrange(1, n as int));
            assert(s@ == int_chars(v as int));
            assert forall|u: i64| s@ == int_chars(u as int) implies u == v by {
                lemma_int_chars_inj(u as int, v as int);
            }
        }
        return Some(v);
    }
    if acc > 9_223_372_036_854_775_807 {
        proof {
            lemma_whole_too_big(s@, start as int, acc as int, neg);
        }
        return None;
    }
    let v: i64 = acc as i64;
    proof {
        assert(s@ =~= s@.subrange(0, n as int));
        assert(s@ == int_chars(v as int));
        assert forall|u: i64| s@ == int_chars(u as int) implies u == v by {
            lemma_int_chars_inj(u as int, v as int);
        }
    }
    Some(v)
}

/// One accumulator step extends the parsed prefix by one digit.
proof fn lemma_acc_step(s: Seq<char>, start: int, i: int, acc: int, d: int, c: char)
    requires
        0 <= start <= i < s.len(),
        0 <= d < 10,
        crate::keys::dec_digit(d) == c,
        s[i] == c,
        s[start] != '0',
        i == start ==> acc == 0,
        i > start ==> acc >= 1 && crate::keys::dec_chars(acc) == s.subrange(start, i),
    ensures
        acc * 10 + d >= 1,
        crate::keys::dec_chars(acc * 10 + d) == s.subrange(start, i + 1),
{
    let next = acc * 10 + d;
    if i == start {
        if d == 0 {
            assert(s[start] == crate::keys::dec_digit(0));
            assert(false);
        }
        reveal_with_fuel(crate::keys::dec_chars, 2);
        vstd::arithmetic::div_mod::lemma_basic_div(d, 10);
        vstd::arithmetic::div_mod::lemma_small_mod(d as nat, 10);
        assert(crate::keys::dec_chars(next) =~= s.subrange(start, i + 1));
    } else {
        vstd::arithmetic::div_mod::lemma_fundamental_div_mod_converse(next, 10, acc, d);
        assert(crate::keys::dec_chars(next) == crate::keys::dec_chars(acc).push(
            crate::keys::dec_digit(d),
        ));
        assert(crate::keys::dec_chars(next) =~= s.subrange(start, i + 1));
    }
}

/// If the digits seen so far already name too large a value, no `i64`
/// renders as this text.
proof fn lemma_digits_too_big(s: Seq<char>, start: int, i: int, acc: int, d: int, neg: bool)
    requires
        0 <= start <= i < s.len(),
        0 <= d < 10,
        acc * 10 + d > 9_223_372_036_854_775_808,
        crate::keys::dec_digit(d) == s[i],
        s[start] != '0',
        i == start ==> acc == 0,
        i > start ==> acc >= 1 && crate::keys::dec_chars(acc) == s.subrange(start, i),
        start == if neg {
            1int
        } else {
            0int
        },
        neg ==> s[0] == '-',
        !neg ==> s[0] != '-',
    ensures
        forall|v: i64| s != int_chars(v as int),
{
    lemma_acc_step(s, start, i, acc, d, s[i]);
    let next = acc * 10 + d;
    assert forall|v: i64| s != int_chars(v as int) by {
        lemma_int_chars_shape(v as int);
        if s == int_chars(v as int) {
            let m = if v as int >= 0 {
                v as int
            } else {
                -(v as int)
            };
            assert(m <= 9_223_372_036_854_775_808);
            if v == 0 {
                assert(s[0] == '0');
                assert(false);
            }
            assert(m >= 1);
            assert(crate::keys::dec_chars(m) == s.subrange(start, s.len() as int));
            if i + 1 == s.len() {
                assert(crate::keys::dec_chars(next) =~= crate::keys::dec_chars(m));
                crate::keys::lemma_dec_chars_inj(next, m);
            } else {
                assert(crate::keys::dec_chars(next) == crate::keys::dec_chars(m).subrange(
                    0,
                    crate::keys::dec_chars(next).len() as int,
                ));
                crate::keys::lemma_dec_chars_prefix_bound(next, m);
            }
            assert(false);
        }
    }
}

/// If the whole digit run names too large a value for the sign at
/// hand, no `i64` renders as this text.
proof fn lemma_whole_too_big(s: Seq<char>, start: int, acc: int, neg: bool)
    requires
        0 <= start < s.len(),
        acc >= 1,
        crate::keys::dec_chars(acc) == s.subrange(start, s.len() as int),
        neg ==> acc > 9_223_372_036_854_775_808,
        !neg ==> acc > 9_223_372_036_854_775_807,
        start == if neg {
            1int
        } else {
            0int
        },
        neg ==> s[0] == '-',
        !neg ==> s[0] != '-',
        s[start] != '0',
    ensures
        forall|v: i64| s != int_chars(v as int),
{
    assert forall|v: i64| s != int_chars(v as int) by {
        lemma_int_chars_shape(v as int);
        if s == int_chars(v as int) {
            if v == 0 {
                assert(s[0] == '0');
                assert(false);
            }
            let m = if v as int >= 0 {
                v as int
            } else {
                -(v as int)
            };
            assert(m >= 1);
            assert(crate::keys::dec_chars(m) == s.subrange(start, s.len() as int));
            crate::keys::lemma_dec_chars_inj(acc, m);
            if v > 0 {
                assert(m <= 9_223_372_036_854_775_807);
            } else {
                assert(m <= 9_223_372_036_854_775_808);
            }
            assert(false);
        }
    }
}

/// Whether a stored flag value means "enabled": exactly the text
/// `true`.
pub fn enabled_of_text(s: &str) -> (r: bool)
    ensures
        r == (s@ == "true"@),
{
    str_eq(s, "true")
}

/// Parses a stored week-start setting: `Some(w)` exactly when the text
/// is the canonical decimal of a `w` in 1..=7.
pub fn parse_week_start(s: &str) -> (r: Option<i32>)
    ensures
        r is Some ==> 1 <= r->Some_0 <= 7 && s@ == int_chars(r->Some_0 as int),
        forall|v: i32| 1 <= v <= 7 && s@ == int_chars(v as int) ==> r == Some(v),
{
    match parse_i64(s) {
        Some(v) => {
            if 1 <= v && v <= 7 {
                Some(v as i32)
            } else {
                proof {
                    assert forall|u: i32| 1 <= u <= 7 implies s@ != int_chars(u as int) by {
                        if s@ == int_chars(u as int) {
                            lemma_int_chars_inj(u as int, v as int);
                        }
                    }
                }
                None
            }
        },
        None => {
            proof {
                assert forall|u: i32| 1 <= u <= 7 implies s@ != int_chars(u as int) by {
                    if s@ == int_chars(u as int) {
                        let uu: i64 = u as i64;
                        assert(s@ == int_chars(uu as int));
                    }
                }
            }
            None
        },
    }
}

} // verus!
