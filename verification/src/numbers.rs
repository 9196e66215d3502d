//! Numbers that CS2 sends as text.
//!
//! Many numeric fields of a GSI payload arrive as JSON strings (for example
//! `"health": "100"`). Such a string is trimmed and read the way Rust's
//! `FromStr` reads an integer: an optional sign (`-` only for signed
//! types) followed by one or more ASCII digits, within the range of the
//! target type.

use vstd::prelude::*;
use crate::text::{chars_of, trim, trim_chars};

verus! {

/// An ASCII decimal digit.
pub open spec fn is_digit(c: char) -> bool {
    '0' <= c <= '9'
}

/// Every character of `d` is an ASCII decimal digit.
pub open spec fn all_digits(d: Seq<char>) -> bool {
    forall|i: int| 0 <= i < d.len() ==> is_digit(#[trigger] d[i])
}

/// The value of a run of decimal digits.
pub open spec fn decimal_value(d: Seq<char>) -> int
    decreases d.len(),
{
    if d.len() == 0 {
        0
    } else {
        decimal_value(d.drop_last()) * 10 + (d.last() as int - '0' as int)
    }
}

/// The integer that `s` denotes under Rust's `FromStr` for integers: an
/// optional `+` (or, where `signed`, `-`) followed by at least one ASCII
/// digit. `None` for any other text.
pub open spec fn integer_text(s: Seq<char>, signed: bool) -> Option<int> {
    if s.len() >= 2 && s[0] == '+' && all_digits(s.skip(1)) {
        Some(decimal_value(s.skip(1)))
    } else if signed && s.len() >= 2 && s[0] == '-' && all_digits(s.skip(1)) {
        Some(-decimal_value(s.skip(1)))
    } else if s.len() >= 1 && all_digits(s) {
        Some(decimal_value(s))
    } else {
        None
    }
}

/// The number a field's text gives for a type whose values run from `lo`
/// to `hi`: the integer the trimmed text denotes, if it is in range.
pub open spec fn number_of(s: Seq<char>, signed: bool, lo: int, hi: int) -> Option<int> {
    match integer_text(trim(s), signed) {
        Some(v) => if lo <= v <= hi {
            Some(v)
        } else {
            None
        },
        None => None,
    }
}

proof fn lemma_decimal_value_grows(d: Seq<char>, n: int)
    requires
        0 <= n <= d.len(),
        all_digits(d),
    ensures
        0 <= decimal_value(d.take(n)) <= decimal_value(d),
    decreases d.len() - n,
{
    if n < d.len() {
        lemma_decimal_value_grows(d, n + 1);
        assert(d.take(n + 1).drop_last() =~= d.take(n));
        assert(is_digit(d[n]));
    } else {
        assert(d.take(n) =~= d);
        lemma_decimal_value_nonneg(d);
    }
}

proof fn lemma_decimal_value_nonneg(d: Seq<char>)
    requires
        all_digits(d),
    ensures
        decimal_value(d) >= 0,
    decreases d.len(),
{
    if d.len() > 0 {
        assert(is_digit(d[d.len() - 1]));
        lemma_decimal_value_nonneg(d.drop_last());
    }
}

/// The value of the digits of `d` from `start` on, if there is at least one,
/// all are digits, and the value is at most `limit`.
fn magnitude(d: &Vec<char>, start: usize, limit: u64) -> (r: Option<u64>)
    requires
        start <= d@.len(),
    ensures
        match r {
            Some(v) => start < d@.len() && all_digits(d@.skip(start as int))
                && v == decimal_value(d@.skip(start as int)) && v <= limit,
            None => !(start < d@.len() && all_digits(d@.skip(start as int))
                && decimal_value(d@.skip(start as int)) <= limit),
        },
{
    if start == d.len() {
        return None;
    }
    let ghost tail = d@.skip(start as int);
    let mut v: u128 = 0;
    let mut i: usize = start;
    assert(tail.take(0) =~= Seq::<char>::empty());
    while i < d.len()
        invariant
            start <= i <= d@.len(),
            tail == d@.skip(start as int),
            all_digits(tail.take(i - start)),
            v == decimal_value(tail.take(i - start)),
            v <= limit,
        decreases d.len() - i,
    {
        let c = d[i];
        proof {
            assert(tail[i - start] == c);
            assert(tail.take(i - start + 1).drop_last() =~= tail.take(i - start));
        }
        if c < '0' || c > '9' {
            assert(!is_digit(tail[i - start]));
            return None;
        }
        let digit = (c as u32 - '0' as u32) as u128;
        v = v * 10 + digit;
        assert(all_digits(tail.take(i - start + 1)));
        if v > limit as u128 {
            proof {
                if all_digits(tail) {
                    lemma_decimal_value_grows(tail, i - start + 1);
                }
            }
            return None;
        }
        i = i + 1;
    }
    assert(tail.take(i - start) =~= tail);
    Some(v as u64)
}

fn parse_unsigned(s: &str, max: u64) -> (r: Option<u64>)
    ensures
        match number_of(s@, false, 0, max as int) {
            Some(v) => r == Some(v as u64),
            None => r is None,
        },
{
    let t = trim_chars(&chars_of(s));
    let ghost ts = t@;
    if t.len() >= 2 && t[0] == '+' {
        let m = magnitude(&t, 1, max);
        proof {
            if ts.skip(1).len() >= 1 && all_digits(ts.skip(1)) {
                lemma_decimal_value_nonneg(ts.skip(1));
            }
        }
        match m {
            Some(v) => Some(v),
            None => None,
        }
    } else {
        let m = magnitude(&t, 0, max);
        proof {
            assert(ts.skip(0) =~= ts);
            if ts.len() >= 1 && all_digits(ts) {
                lemma_decimal_value_nonneg(ts);
                if ts[0] == '+' {
                    assert(!is_digit(ts[0]));
                }
            }
            if ts.len() >= 1 && ts[0] == '-' {
                assert(!is_digit(ts[0]));
            }
        }
        m
    }
}

/// Reads a `u8` field sent as text (see [`number_of`]).
pub fn parse_u8(s: &str) -> (r: Option<u8>)
    ensures
        match number_of(s@, false, 0, u8::MAX as int) {
            Some(v) => r == Some(v as u8),
            None => r is None,
        },
{
    match parse_unsigned(s, 255) {
        Some(v) => Some(v as u8),
        None => None,
    }
}

/// Reads a `u32` field sent as text (see [`number_of`]).
pub fn parse_u32(s: &str) -> (r: Option<u32>)
    ensures
        match number_of(s@, false, 0, u32::MAX as int) {
            Some(v) => r == Some(v as u32),
            None => r is None,
        },
{
    match parse_unsigned(s, 4294967295) {
        Some(v) => Some(v as u32),
        None => None,
    }
}

/// Reads a `u64` field sent as text (see [`number_of`]).
pub fn parse_u64(s: &str) -> (r: Option<u64>)
    ensures
        match number_of(s@, false, 0, u64::MAX as int) {
            Some(v) => r == Some(v as u64),
            None => r is None,
        },
{
    parse_unsigned(s, 18446744073709551615)
}

/// Reads an `i32` field sent as text (see [`number_of`]).
pub fn parse_i32(s: &str) -> (r: Option<i32>)
    ensures
        match number_of(s@, true, i32::MIN as int, i32::MAX as int) {
            Some(v) => r == Some(v as i32),
            None => r is None,
        },
{
    let t = trim_chars(&chars_of(s));
    let ghost ts = t@;
    if t.len() >= 2 && t[0] == '+' {
        let m = magnitude(&t, 1, 2147483647);
        proof {
            if all_digits(ts.skip(1)) {
                lemma_decimal_value_nonneg(ts.skip(1));
            }
        }
        match m {
            Some(v) => Some(v as i32),
            None => None,
        }
    } else if t.len() >= 2 && t[0] == '-' {
        let m = magnitude(&t, 1, 2147483648);
        proof {
            if all_digits(ts.skip(1)) {
                lemma_decimal_value_nonneg(ts.skip(1));
            }
        }
        match m {
            Some(v) => Some((0 - (v as i64)) as i32),
            None => None,
        }
    } else {
        let m = magnitude(&t, 0, 2147483647);
        proof {
            assert(ts.skip(0) =~= ts);
            if ts.len() >= 1 && all_digits(ts) {
                lemma_decimal_value_nonneg(ts);
            }
            if ts.len() >= 1 && (ts[0] == '-' || ts[0] == '+') {
                assert(!is_digit(ts[0]));
            }
        }
        match m {
            Some(v) => Some(v as i32),
            None => None,
        }
    }
}

} // verus!
