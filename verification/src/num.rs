//! Decimal integer parsing with the semantics of the standard library's
//! `str::parse` for `i64` and `usize`: an optional sign (`+` or, for signed
//! types, `-`), then one or more ASCII digits, and a value in range.

use vstd::prelude::*;
use crate::text::chars_of;

verus! {

pub open spec fn is_digit(c: char) -> bool {
    '0' <= c && c <= '9'
}

pub open spec fn all_digits(s: Seq<char>) -> bool {
    forall|i: int| 0 <= i < s.len() ==> is_digit(s[i])
}

/// The value of a string of decimal digits.
pub open spec fn digits_value(s: Seq<char>) -> nat
    decreases s.len(),
{
    if s.len() == 0 {
        0
    } else {
        digits_value(s.drop_last()) * 10 + ((s.last() as int) - ('0' as int)) as nat
    }
}

/// The digits after an optional sign and whether the sign was `-`.
pub open spec fn split_sign(s: Seq<char>, allow_minus: bool) -> (bool, Seq<char>) {
    if s.len() > 0 && s[0] == '+' {
        (false, s.subrange(1, s.len() as int))
    } else if allow_minus && s.len() > 0 && s[0] == '-' {
        (true, s.subrange(1, s.len() as int))
    } else {
        (false, s)
    }
}

/// What `str::parse::<i64>` yields for `s`.
pub open spec fn parse_i64_spec(s: Seq<char>) -> Option<int> {
    let (neg, ds) = split_sign(s, true);
    if ds.len() == 0 || !all_digits(ds) {
        None
    } else {
        let v: int = if neg { -(digits_value(ds) as int) } else { digits_value(ds) as int };
        if i64::MIN <= v <= i64::MAX { Some(v) } else { None }
    }
}

/// What `str::parse::<usize>` yields for `s`.
pub open spec fn parse_usize_spec(s: Seq<char>) -> Option<int> {
    let (neg, ds) = split_sign(s, false);
    if ds.len() == 0 || !all_digits(ds) {
        None
    } else if digits_value(ds) <= usize::MAX {
        Some(digits_value(ds) as int)
    } else {
        None
    }
}

proof fn lemma_digits_value_prefix(s: Seq<char>, i: int)
    requires
        0 <= i <= s.len(),
        all_digits(s),
    ensures
        digits_value(s.subrange(0, i)) <= digits_value(s),
    decreases s.len() - i,
{
    if i < s.len() {
        lemma_digits_value_prefix(s, i + 1);
        assert(s.subrange(0, i + 1).drop_last() =~= s.subrange(0, i));
    } else {
        assert(s.subrange(0, i) =~= s);
    }
}

/// The value of the digits `s[start..]` when they are one or more ASCII
/// digits whose value is at most `limit`; `None` otherwise.
fn digits_at_most(s: &[char], start: usize, limit: u64) -> (r: Option<u64>)
    requires
        start <= s@.len(),
    ensures
        ({
            let ds = s@.subrange(start as int, s@.len() as int);
            match r {
                Some(v) => ds.len() > 0 && all_digits(ds) && v == digits_value(ds) && v <= limit,
                None => ds.len() == 0 || !all_digits(ds) || digits_value(ds) > limit,
            }
        }),
{
    let n = s.len();
    let ghost ds = s@.subrange(start as int, n as int);
    if start == n {
        return None;
    }
    let mut acc: u64 = 0;
    let mut i = start;
    while i < n
        invariant
            s@.len() == n,
            start <= i <= n,
            ds == s@.subrange(start as int, n as int),
            forall|j: int| 0 <= j < i - start ==> is_digit(ds[j]),
            acc == digits_value(ds.subrange(0, i - start)),
            acc <= limit,
        decreases n - i,
    {
        let c = s[i];
        if !('0' <= c && c <= '9') {
            assert(!is_digit(ds[i - start]));
            return None;
        }
        let d = (c as u64) - ('0' as u64);
        assert(ds.subrange(0, i + 1 - start).drop_last() =~= ds.subrange(0, i - start));
        if d > limit || acc > (limit - d) / 10 {
            proof {
                assert(acc * 10 + d > limit) by (nonlinear_arith)
                    requires
                        d > limit || acc > (limit - d) / 10,
                        d <= 9,
                        acc >= 0;
                if all_digits(ds) {
                    lemma_digits_value_prefix(ds, i + 1 - start);
                }
            }
            return None;
        }
        assert(acc * 10 + d <= limit) by (nonlinear_arith)
            requires
                acc <= (limit - d) / 10,
                d <= limit;
        acc = acc * 10 + d;
        i = i + 1;
    }
    assert(ds.subrange(0, n - start) =~= ds);
    Some(acc)
}


/// `str::parse::<i64>` on a character sequence.
pub fn parse_i64_chars(s: &[char]) -> (r: Option<i64>)
    ensures
        match r {
            Some(v) => parse_i64_spec(s@) == Some(v as int),
            None => parse_i64_spec(s@) is None,
        },
{
    let n = s.len();
    let (neg, start) = if n > 0 && s[0] == '+' {
        (false, 1usize)
    } else if n > 0 && s[0] == '-' {
        (true, 1usize)
    } else {
        (false, 0usize)
    };
    assert(split_sign(s@, true).1 =~= s@.subrange(start as int, n as int));
    let limit: u64 = if neg { 9223372036854775808u64 } else { 9223372036854775807u64 };
    match digits_at_most(s, start, limit) {
        Some(v) => {
            if neg {
                if v == 9223372036854775808u64 {
                    Some(i64::MIN)
                } else {
                    Some(-(v as i64))
                }
            } else {
                Some(v as i64)
            }
        },
        None => None,
    }
}

/// `str::parse::<i64>`.
pub fn parse_i64_str(s: &str) -> (r: Option<i64>)
    ensures
        match r {
            Some(v) => parse_i64_spec(s@) == Some(v as int),
            None => parse_i64_spec(s@) is None,
        },
{
    let chars = chars_of(s);
    parse_i64_chars(&chars)
}

/// `str::parse::<usize>` on a character sequence.
pub fn parse_usize_chars(s: &[char]) -> (r: Option<usize>)
    ensures
        match r {
            Some(v) => parse_usize_spec(s@) == Some(v as int),
            None => parse_usize_spec(s@) is None,
        },
{
    let n = s.len();
    let start: usize = if n > 0 && s[0] == '+' { 1 } else { 0 };
    assert(split_sign(s@, false).1 =~= s@.subrange(start as int, n as int));
    match digits_at_most(s, start, usize::MAX as u64) {
        Some(v) => Some(v as usize),
        None => None,
    }
}

} // verus!
