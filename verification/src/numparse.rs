//! Decimal parsing of the MTU argument: an optional sign followed by decimal
//! digits, rejected when empty, when a non-digit appears, or when the value
//! does not fit in a signed 32-bit integer.

use vstd::prelude::*;

verus! {

/// A decimal digit.
pub open spec fn is_dec_digit(c: char) -> bool {
    '0' <= c && c <= '9'
}

/// Numeric value of a decimal digit.
pub open spec fn digit_value(c: char) -> int {
    c as int - '0' as int
}

/// Every character of `s` is a decimal digit.
pub open spec fn all_dec_digits(s: Seq<char>) -> bool {
    forall|i: int| 0 <= i < s.len() ==> is_dec_digit(#[trigger] s[i])
}

/// Value of a digit string, most significant digit first.
pub open spec fn digits_value(s: Seq<char>) -> int
    decreases s.len(),
{
    if s.len() == 0 {
        0
    } else {
        10 * digits_value(s.drop_last()) + digit_value(s.last())
    }
}

/// `s` starts with an explicit sign character.
pub open spec fn has_sign(s: Seq<char>) -> bool {
    s.len() > 0 && (s[0] == '+' || s[0] == '-')
}

/// `s` without its sign, if it has one.
pub open spec fn digits_part(s: Seq<char>) -> Seq<char> {
    if has_sign(s) {
        s.skip(1)
    } else {
        s
    }
}

/// An optional sign followed by at least one decimal digit: exactly the
/// strings that denote an integer, range aside.
pub open spec fn is_int_literal(s: Seq<char>) -> bool {
    digits_part(s).len() > 0 && all_dec_digits(digits_part(s))
}

/// The integer that `s` denotes, meaningful when `is_int_literal(s)`.
pub open spec fn int_literal_value(s: Seq<char>) -> int {
    if has_sign(s) && s[0] == '-' {
        -digits_value(digits_part(s))
    } else {
        digits_value(digits_part(s))
    }
}

/// `s` denotes an integer that fits in an `i32`.
pub open spec fn is_i32_literal(s: Seq<char>) -> bool {
    is_int_literal(s) && i32::MIN <= int_literal_value(s) <= i32::MAX
}

/// Why a string failed to parse as an `i32`.
#[derive(Clone, Copy, PartialEq, Eq, Debug)]
pub enum ParseIntError {
    /// The string was empty.
    Empty,
    /// A character other than a sign in first position or a decimal digit
    /// appeared, or the string was only a sign.
    InvalidDigit,
    /// The denoted integer does not fit in an `i32`.
    OutOfRange,
}

/// Appending one digit multiplies the value so far by ten and adds the digit.
proof fn lemma_digits_value_step(s: Seq<char>, start: int, i: int)
    requires
        0 <= start <= i < s.len(),
    ensures
        digits_value(s.subrange(start, i + 1)) == 10 * digits_value(s.subrange(start, i))
            + digit_value(s[i]),
{
    assert(s.subrange(start, i + 1).drop_last() =~= s.subrange(start, i));
    assert(s.subrange(start, i + 1).last() == s[i]);
}

/// Parses `s` as a decimal `i32`: an optional `+` or `-` sign, then at least
/// one decimal digit. Returns exactly the denoted value when it fits in an
/// `i32`, and says otherwise why the string is rejected.
pub fn parse_i32(s: &str) -> (r: Result<i32, ParseIntError>)
    ensures
        match r {
            Ok(v) => is_i32_literal(s@) && v as int == int_literal_value(s@),
            Err(ParseIntError::Empty) => s@.len() == 0,
            Err(ParseIntError::InvalidDigit) => s@.len() > 0 && !is_int_literal(s@),
            Err(ParseIntError::OutOfRange) => is_int_literal(s@) && !(i32::MIN
                <= int_literal_value(s@) <= i32::MAX),
        },
{
    let len = s.unicode_len();
    if len == 0 {
        return Err(ParseIntError::Empty);
    }
    let first = s.get_char(0);
    let neg = first == '-';
    let start: usize = if first == '-' || first == '+' {
        1
    } else {
        0
    };
    if start == len {
        // A lone sign has an empty digits part.
        return Err(ParseIntError::InvalidDigit);
    }
    // Largest magnitude that still fits, given the sign.
    let bound: u64 = if neg {
        2147483648
    } else {
        2147483647
    };
    let mut acc: u64 = 0;
    let mut overflow = false;
    let mut i = start;
    while i < len
        invariant
            len == s@.len(),
            start <= i <= len,
            start == (if has_sign(s@) { 1int } else { 0int }),
            neg == (has_sign(s@) && s@[0] == '-'),
            bound == (if neg { 2147483648int } else { 2147483647int }),
            all_dec_digits(s@.subrange(start as int, i as int)),
            !overflow ==> acc == digits_value(s@.subrange(start as int, i as int)) && acc
                <= bound,
            overflow ==> digits_value(s@.subrange(start as int, i as int)) > bound,
        decreases len - i,
    {
        let c = s.get_char(i);
        let code = c as u32;
        if code < 48 || code > 57 {
            assert(!is_dec_digit(s@[i as int]));
            assert(!all_dec_digits(digits_part(s@))) by {
                assert(digits_part(s@) =~= s@.skip(start as int));
                assert(digits_part(s@)[i - start] == s@[i as int]);
            }
            return Err(ParseIntError::InvalidDigit);
        }
        let d = code - 48;
        proof {
            lemma_digits_value_step(s@, start as int, i as int);
        }
        if overflow {
            proof {
                let prev = digits_value(s@.subrange(start as int, i as int));
                assert(digits_value(s@.subrange(start as int, i + 1)) == 10 * prev
                    + digit_value(s@[i as int]));
                assert(10 * prev > bound);
            }
        } else {
            acc = acc * 10 + (d as u64);
            if acc > bound {
                overflow = true;
            }
        }
        assert(all_dec_digits(s@.subrange(start as int, i + 1))) by {
            assert(s@.subrange(start as int, i + 1).drop_last() =~= s@.subrange(
                start as int,
                i as int,
            ));
            assert(forall|j: int| 0 <= j < i + 1 - start ==> #[trigger] s@.subrange(
                start as int,
                i + 1,
            )[j] == s@[start + j]);
        }
        i += 1;
    }
    proof {
        assert(s@.subrange(start as int, len as int) =~= digits_part(s@));
        assert(is_int_literal(s@));
    }
    if overflow {
        proof {
            if neg {
                assert(int_literal_value(s@) < i32::MIN);
            } else {
                assert(int_literal_value(s@) > i32::MAX);
            }
        }
        return Err(ParseIntError::OutOfRange);
    }
    if neg {
        if acc == 2147483648 {
            Ok(i32::MIN)
        } else {
            Ok(0i32 - (acc as i32))
        }
    } else {
        Ok(acc as i32)
    }
}

} // verus!
