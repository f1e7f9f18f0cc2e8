//! Decimal integers as they stand in a tunable's text.
//!
//! The text is an optional sign and then one digit or more, with nothing
//! before, between or after. An unsigned number takes `+` for a sign, a
//! signed one `+` or `-`. A number that does not fit its type is no number.

use vstd::prelude::*;

verus! {

/// The byte `+`.
pub const PLUS: u8 = 43;

/// The byte `-`.
pub const MINUS: u8 = 45;

/// The byte `0`; the other digits follow it.
pub const ZERO: u8 = 48;

/// Whether `b` is one of the bytes `0` to `9`.
pub open spec fn is_digit(b: u8) -> bool {
    ZERO <= b <= ZERO + 9
}

/// Whether `s` holds digits only.
pub open spec fn all_digits(s: Seq<u8>) -> bool {
    forall|i: int| 0 <= i < s.len() ==> is_digit(#[trigger] s[i])
}

/// The number that the digits `s` write, the most significant first.
pub open spec fn digits_value(s: Seq<u8>) -> nat
    decreases s.len(),
{
    if s.len() == 0 {
        0
    } else {
        (digits_value(s.drop_last()) * 10 + (s.last() - ZERO)) as nat
    }
}

/// The digits of `s`: what follows its sign, or all of it where it has none.
pub open spec fn magnitude(s: Seq<u8>) -> Seq<u8> {
    if s.len() > 0 && (s[0] == PLUS || s[0] == MINUS) {
        s.skip(1)
    } else {
        s
    }
}

/// Whether `s` starts with `-`.
pub open spec fn negative(s: Seq<u8>) -> bool {
    s.len() > 0 && s[0] == MINUS
}

/// The integer that `s` writes, or `None` where `s` is not a sign at most
/// and then one digit or more.
pub open spec fn decimal(s: Seq<u8>) -> Option<int> {
    let digits = magnitude(s);
    if digits.len() > 0 && all_digits(digits) {
        if negative(s) {
            Some(-(digits_value(digits) as int))
        } else {
            Some(digits_value(digits) as int)
        }
    } else {
        None
    }
}

/// The `u32` that `s` writes: a decimal without `-` that is at most `u32::MAX`.
pub open spec fn decimal_u32(s: Seq<u8>) -> Option<u32> {
    match decimal(s) {
        Some(v) => if !negative(s) && v <= u32::MAX {
            Some(v as u32)
        } else {
            None
        },
        None => None,
    }
}

/// The `i32` that `s` writes: a decimal from `i32::MIN` to `i32::MAX`.
pub open spec fn decimal_i32(s: Seq<u8>) -> Option<i32> {
    match decimal(s) {
        Some(v) => if i32::MIN <= v <= i32::MAX {
            Some(v as i32)
        } else {
            None
        },
        None => None,
    }
}

/// More digits never write a smaller number.
pub proof fn lemma_digits_value_grows(s: Seq<u8>, n: int)
    requires
        0 <= n <= s.len(),
        all_digits(s),
    ensures
        digits_value(s.take(n)) <= digits_value(s),
    decreases s.len() - n,
{
    if n < s.len() {
        let t = s.drop_last();
        assert(is_digit(s[s.len() - 1]));
        if n == t.len() {
            assert(s.take(n) == t);
        } else {
            assert(all_digits(t)) by {
                assert forall|i: int| 0 <= i < t.len() implies is_digit(#[trigger] t[i]) by {
                    assert(t[i] == s[i]);
                }
            }
            lemma_digits_value_grows(t, n);
            assert(t.take(n) == s.take(n));
        }
    } else {
        assert(s.take(n) == s);
    }
}

/// Reads the digits of `s` from index `from` on, as long as the number stays
/// at most `limit`.
///
/// Returns `None` where no digit is left to read, where a byte is no digit,
/// and where the number is greater than `limit`.
fn read_digits(s: &[u8], from: usize, limit: u64) -> (r: Option<u64>)
    requires
        from <= s.len(),
        limit <= u32::MAX + 1,
    ensures
        match r {
            Some(v) => {
                &&& from < s.len()
                &&& all_digits(s@.skip(from as int))
                &&& v == digits_value(s@.skip(from as int))
                &&& v <= limit
            },
            None => {
                ||| from == s.len()
                ||| !all_digits(s@.skip(from as int))
                ||| digits_value(s@.skip(from as int)) > limit
            },
        },
{
    if from == s.len() {
        return None;
    }
    let ghost digits = s@.skip(from as int);
    let mut value: u64 = 0;
    let mut i: usize = from;
    while i < s.len()
        invariant
            from <= i <= s.len(),
            limit <= u32::MAX + 1,
            digits == s@.skip(from as int),
            all_digits(digits.take(i - from)),
            value == digits_value(digits.take(i - from)),
            value <= limit,
        decreases s.len() - i,
    {
        let b = s[i];
        if b < ZERO || b > ZERO + 9 {
            proof {
                assert(digits[i - from] == b);
            }
            return None;
        }
        let ghost shorter = digits.take(i - from);
        let ghost longer = digits.take(i - from + 1);
        proof {
            assert(longer.drop_last() == shorter);
            assert(longer.last() == b);
            assert(all_digits(longer)) by {
                assert forall|j: int| 0 <= j < longer.len() implies is_digit(#[trigger] longer[j]) by {
                    if j < shorter.len() {
                        assert(shorter[j] == longer[j]);
                    }
                }
            }
        }
        value = value * 10 + (b - ZERO) as u64;
        i += 1;
        if value > limit {
            proof {
                if all_digits(digits) {
                    lemma_digits_value_grows(digits, i - from);
                }
            }
            return None;
        }
    }
    proof {
        assert(digits.take(i - from) == digits);
    }
    Some(value)
}

/// Reads `s` as a `u32`.
pub fn parse_u32(s: &[u8]) -> (r: Option<u32>)
    ensures
        r == decimal_u32(s@),
{
    let from: usize = if s.len() > 0 && s[0] == PLUS {
        1
    } else {
        0
    };
    if s.len() > 0 && s[0] == MINUS {
        proof {
            if decimal(s@).is_some() {
                assert(negative(s@));
            }
        }
        return None;
    }
    proof {
        assert(s@.skip(0) == s@);
    }
    match read_digits(s, from, 0xffff_ffff) {
        Some(v) => Some(v as u32),
        None => None,
    }
}

/// Reads `s` as an `i32`.
pub fn parse_i32(s: &[u8]) -> (r: Option<i32>)
    ensures
        r == decimal_i32(s@),
{
    let minus = s.len() > 0 && s[0] == MINUS;
    let from: usize = if s.len() > 0 && (s[0] == PLUS || s[0] == MINUS) {
        1
    } else {
        0
    };
    let limit: u64 = if minus {
        0x8000_0000
    } else {
        0x7fff_ffff
    };
    proof {
        assert(s@.skip(0) == s@);
    }
    match read_digits(s, from, limit) {
        Some(v) => if minus {
            Some((-(v as i64)) as i32)
        } else {
            Some(v as i32)
        },
        None => None,
    }
}

} // verus!
