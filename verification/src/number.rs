//! Decimal integers as text.

use crate::text::chars_of;
use vstd::prelude::*;

verus! {

/// Whether `c` is one of the digits `0` to `9`.
pub open spec fn is_digit(c: char) -> bool {
    48 <= c as u32 <= 57
}

/// The number that the digit `c` stands for.
pub open spec fn digit_value(c: char) -> int {
    (c as u32) as int - 48
}

/// Whether `s` holds digits only.
pub open spec fn all_digits(s: Seq<char>) -> bool {
    forall|i: int| 0 <= i < s.len() ==> is_digit(#[trigger] s[i])
}

/// The number that the digits of `s` write in base ten; 0 for no digit.
pub open spec fn digits_value(s: Seq<char>) -> int
    decreases s.len(),
{
    if s.len() == 0 {
        0
    } else {
        digits_value(s.drop_last()) * 10 + digit_value(s.last())
    }
}

/// The 32-bit integer that `s` writes, if it writes one: an optional sign
/// `+` or `-`, then at least one digit and nothing but digits, with a value
/// from -2147483648 to 2147483647.
pub open spec fn parsed_i32(s: Seq<char>) -> Option<int> {
    if s.len() == 0 {
        None
    } else {
        let signed = s[0] == '-' || s[0] == '+';
        let digits = if signed {
            s.skip(1)
        } else {
            s
        };
        let value = if s[0] == '-' {
            -digits_value(digits)
        } else {
            digits_value(digits)
        };
        if digits.len() > 0 && all_digits(digits) && i32::MIN <= value <= i32::MAX {
            Some(value)
        } else {
            None
        }
    }
}

/// Reads a decimal 32-bit integer from `s`.
pub fn parse_i32(s: &str) -> (r: Option<i32>)
    ensures
        match r {
            Some(n) => parsed_i32(s@) == Some(n as int),
            None => parsed_i32(s@) is None,
        },
{
    let text = chars_of(s);
    if text.len() == 0 {
        return None;
    }
    let negative = text[0] == '-';
    let start: usize = if negative || text[0] == '+' {
        1
    } else {
        0
    };
    if start == text.len() {
        return None;
    }
    let ghost digits = text@.skip(start as int);
    proof {
        assert(text@.skip(0) == text@);
        assert(digits == if s@[0] == '-' || s@[0] == '+' {
            s@.skip(1)
        } else {
            s@
        });
    }
    let limit: i64 = 2147483648;
    let mut value: i64 = 0;
    let mut too_large = false;
    let mut i: usize = start;
    while i < text.len()
        invariant
            start <= i <= text.len(),
            digits == text@.skip(start as int),
            s@.len() > 0,
            digits == if s@[0] == '-' || s@[0] == '+' {
                s@.skip(1)
            } else {
                s@
            },
            limit == 2147483648,
            all_digits(digits.take(i - start)),
            !too_large ==> 0 <= value <= limit && value == digits_value(digits.take(i - start)),
            too_large ==> digits_value(digits.take(i - start)) > limit,
        decreases text.len() - i,
    {
        let c = text[i];
        let n: u32 = c as u32;
        let ghost seen = digits.take(i - start);
        let ghost next = digits.take(i - start + 1);
        proof {
            assert(next.drop_last() == seen);
            assert(next.last() == c);
        }
        if n < 48 || n > 57 {
            proof {
                assert(digits[i - start] == c);
                assert(!is_digit(c));
            }
            return None;
        }
        proof {
            assert(is_digit(c));
            assert forall|k: int| 0 <= k < next.len() implies is_digit(#[trigger] next[k]) by {
                if k < seen.len() {
                    assert(next[k] == seen[k]);
                }
            }
        }
        if !too_large {
            value = value * 10 + (n - 48) as i64;
            if value > limit {
                too_large = true;
            }
        }
        i += 1;
    }
    proof {
        assert(digits.take(i - start) == digits);
    }
    if too_large {
        None
    } else if negative {
        Some((-value) as i32)
    } else if value == limit {
        None
    } else {
        Some(value as i32)
    }
}

} // verus!
