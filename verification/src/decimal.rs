//! Signed decimal integers as they are written on a command line.
//!
//! The accepted grammar is an optional `+` or `-`, followed by one or more
//! ASCII digits and nothing else; the value must fit the integer type.

use vstd::prelude::*;
use vstd::string::*;

verus! {

/// Whether `c` is one of the ten ASCII digits.
pub open spec fn is_digit(c: char) -> bool {
    '0' <= c && c <= '9'
}

/// The number that the ASCII digit `c` stands for.
pub open spec fn digit_value(c: char) -> int {
    c as int - '0' as int
}

/// Whether every character of `s` is an ASCII digit.
pub open spec fn all_digits(s: Seq<char>) -> bool {
    forall|i: int| 0 <= i < s.len() ==> is_digit(#[trigger] s[i])
}

/// The number written by the digit string `s`, most significant digit first.
pub open spec fn digits_value(s: Seq<char>) -> int
    decreases s.len(),
{
    if s.len() == 0 {
        0
    } else {
        digits_value(s.drop_last()) * 10 + digit_value(s.last())
    }
}

/// Whether `s` begins with a sign character.
pub open spec fn has_sign(s: Seq<char>) -> bool {
    s.len() > 0 && (s[0] == '-' || s[0] == '+')
}

/// The digits of `s`, without the sign where there is one.
pub open spec fn magnitude_digits(s: Seq<char>) -> Seq<char> {
    if has_sign(s) {
        s.skip(1)
    } else {
        s
    }
}

/// The integer written by `s`, where `s` follows the grammar.
pub open spec fn signed_decimal(s: Seq<char>) -> Option<int> {
    let digits = magnitude_digits(s);
    if digits.len() == 0 || !all_digits(digits) {
        None
    } else if s[0] == '-' {
        Some(-digits_value(digits))
    } else {
        Some(digits_value(digits))
    }
}

/// The `i32` written by `s`: `None` where `s` is off the grammar or the
/// value is out of range.
pub open spec fn decimal_i32(s: Seq<char>) -> Option<i32> {
    match signed_decimal(s) {
        Some(v) => if i32::MIN <= v && v <= i32::MAX {
            Some(v as i32)
        } else {
            None
        },
        None => None,
    }
}

/// A digit string never stands for a negative number.
pub proof fn lemma_digits_value_nonnegative(s: Seq<char>)
    requires
        all_digits(s),
    ensures
        0 <= digits_value(s),
    decreases s.len(),
{
    if s.len() > 0 {
        lemma_digits_value_nonnegative(s.drop_last());
    }
}

/// Reads an `i32` from its decimal notation.
pub fn parse_i32(s: &str) -> (r: Option<i32>)
    ensures
        r == decimal_i32(s@),
{
    let n: usize = s.unicode_len();
    if n == 0 {
        return None;
    }
    let first: char = s.get_char(0);
    let negative: bool = first == '-';
    let start: usize = if first == '-' || first == '+' {
        1
    } else {
        0
    };
    if start == n {
        return None;
    }
    let ghost digits: Seq<char> = magnitude_digits(s@);
    let limit: i64 = 2147483648;
    let mut acc: i64 = 0;
    let mut overflow: bool = false;
    let mut i: usize = start;
    while i < n
        invariant
            start <= i <= n,
            n == s@.len(),
            start == (if has_sign(s@) { 1int } else { 0int }),
            digits == magnitude_digits(s@),
            digits.len() == n - start,
            limit == 2147483648,
            all_digits(digits.take(i - start)),
            overflow ==> digits_value(digits.take(i - start)) > limit,
            !overflow ==> acc == digits_value(digits.take(i - start)),
            0 <= acc <= limit,
        decreases n - i,
    {
        let c: char = s.get_char(i);
        let ghost before: Seq<char> = digits.take(i - start);
        let ghost after: Seq<char> = digits.take(i + 1 - start);
        proof {
            assert(after.drop_last() == before);
        }
        if !(c >= '0' && c <= '9') {
            proof {
                assert(!is_digit(digits[i - start]));
            }
            return None;
        }
        let d: i64 = (c as u32 - '0' as u32) as i64;
        proof {
            assert forall|j: int| 0 <= j < after.len() implies is_digit(#[trigger] after[j]) by {
                if j < before.len() {
                    assert(after[j] == before[j]);
                }
            }
            lemma_digits_value_nonnegative(before);
        }
        if !overflow {
            let next: i64 = acc * 10 + d;
            if next > limit {
                overflow = true;
            } else {
                acc = next;
            }
        }
        i = i + 1;
    }
    proof {
        assert(digits.take(n - start) == digits);
    }
    if overflow {
        return None;
    }
    if negative {
        let v: i64 = -acc;
        Some(v as i32)
    } else if acc == limit {
        None
    } else {
        Some(acc as i32)
    }
}

} // verus!
