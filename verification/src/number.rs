//! Whole numbers as they are written: decimal digits behind an optional sign.

use vstd::prelude::*;
use vstd::string::StrSliceExecFns;
use crate::text::{digit_value, is_ascii_digit, is_digit};

verus! {

/// The number that a run of decimal digits writes.
pub open spec fn digits_value(digits: Seq<char>) -> nat
    decreases digits.len(),
{
    if digits.len() == 0 {
        0
    } else {
        digits_value(digits.drop_last()) * 10 + digit_value(digits.last())
    }
}

/// Whether every character of `s` is a decimal digit.
pub open spec fn all_digits(s: Seq<char>) -> bool {
    forall|i: int| 0 <= i < s.len() ==> is_digit(#[trigger] s[i])
}

/// Whether `text` begins with a sign.
pub open spec fn has_sign(text: Seq<char>) -> bool {
    text.len() > 0 && (text[0] == '-' || text[0] == '+')
}

/// The 64-bit whole number that `text` writes: an optional `+` or `-`, then
/// one decimal digit or more, and nothing else. A number that 64 bits cannot
/// hold has no value.
pub open spec fn integer_value(text: Seq<char>) -> Option<int> {
    let digits = if has_sign(text) {
        text.drop_first()
    } else {
        text
    };
    let value = if text.len() > 0 && text[0] == '-' {
        -(digits_value(digits) as int)
    } else {
        digits_value(digits) as int
    };
    if digits.len() > 0 && all_digits(digits) && i64::MIN <= value <= i64::MAX {
        Some(value)
    } else {
        None
    }
}

/// A run of digits writes no smaller number than any run it begins with.
pub proof fn lemma_digits_value_grows(digits: Seq<char>, k: int)
    requires
        0 <= k <= digits.len(),
    ensures
        digits_value(digits.subrange(0, k)) <= digits_value(digits),
    decreases digits.len(),
{
    if k == digits.len() {
        assert(digits.subrange(0, k) =~= digits);
    } else {
        lemma_digits_value_grows(digits.drop_last(), k);
        assert(digits.drop_last().subrange(0, k) =~= digits.subrange(0, k));
    }
}

/// The number that the digit `c` stands for.
pub fn digit_of(c: char) -> (d: i64)
    requires
        is_digit(c),
    ensures
        d == digit_value(c),
        0 <= d <= 9,
{
    match c {
        '0' => 0,
        '1' => 1,
        '2' => 2,
        '3' => 3,
        '4' => 4,
        '5' => 5,
        '6' => 6,
        '7' => 7,
        '8' => 8,
        _ => 9,
    }
}

/// Reads a 64-bit whole number from its decimal text.
pub fn parse_integer(text: &str) -> (value: Option<i64>)
    ensures
        match value {
            Some(v) => integer_value(text@) == Some(v as int),
            None => integer_value(text@) is None,
        },
{
    let n = text.unicode_len();
    if n == 0 {
        return None;
    }
    let first = text.get_char(0);
    let negative = first == '-';
    let start: usize = if first == '-' || first == '+' {
        1
    } else {
        0
    };
    if start >= n {
        return None;
    }
    let ghost digits = text@.subrange(start as int, n as int);
    assert(digits =~= if has_sign(text@) {
        text@.drop_first()
    } else {
        text@
    });
    let mut total: i64 = 0;
    let mut i = start;
    while i < n
        invariant
            start <= i <= n,
            n == text@.len(),
            digits == text@.subrange(start as int, n as int),
            digits == if has_sign(text@) {
                text@.drop_first()
            } else {
                text@
            },
            negative == (text@[0] == '-'),
            all_digits(digits.subrange(0, i - start)),
            negative ==> total == -(digits_value(digits.subrange(0, i - start)) as int),
            !negative ==> total == digits_value(digits.subrange(0, i - start)),
        decreases n - i,
    {
        let c = text.get_char(i);
        let ghost seen = digits.subrange(0, i - start);
        let ghost more = digits.subrange(0, i + 1 - start);
        proof {
            assert(more.drop_last() =~= seen);
            assert(more.last() == c);
            lemma_digits_value_grows(digits, i + 1 - start);
        }
        if !is_ascii_digit(c) {
            assert(!is_digit(digits[i - start]));
            return None;
        }
        let d = digit_of(c);
        let scaled = match total.checked_mul(10) {
            Some(s) => s,
            None => {
                return None;
            },
        };
        let next = if negative {
            scaled.checked_sub(d)
        } else {
            scaled.checked_add(d)
        };
        match next {
            Some(t) => {
                total = t;
            },
            None => {
                return None;
            },
        }
        i += 1;
        assert(all_digits(more)) by {
            assert forall|k: int| 0 <= k < more.len() implies is_digit(#[trigger] more[k]) by {
                if k < seen.len() {
                    assert(more[k] == seen[k]);
                }
            }
        }
    }
    assert(digits.subrange(0, n - start) =~= digits);
    Some(total)
}

/// Whether `text` holds the character `c`.
pub fn contains_char(text: &str, c: char) -> (found: bool)
    ensures
        found == text@.contains(c),
{
    let n = text.unicode_len();
    let mut i: usize = 0;
    while i < n
        invariant
            i <= n,
            n == text@.len(),
            forall|k: int| 0 <= k < i ==> text@[k] != c,
        decreases n - i,
    {
        if text.get_char(i) == c {
            return true;
        }
        i += 1;
    }
    false
}

} // verus!
