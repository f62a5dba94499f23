//! Decimal integer parsing, as `str::parse` does it for integer types.

use vstd::prelude::*;

use crate::syntax::error::ParseIntError;

verus! {

/// The value of a decimal digit char.
pub open spec fn digit_value(c: char) -> int {
    (c as int) - ('0' as int)
}

/// Parses the digits `s[i..]` into the accumulated value `acc`, checking
/// each char and then the bounds, left to right. Negative numbers subtract
/// each digit.
pub open spec fn parse_digits(s: Seq<char>, i: int, acc: int, neg: bool, lo: int, hi: int) -> Result<
    int,
    ParseIntError,
>
    decreases s.len() - i,
{
    if i < 0 || i >= s.len() {
        Ok(acc)
    } else if !('0' <= s[i] && s[i] <= '9') {
        Err(ParseIntError::InvalidDigit)
    } else if neg {
        let next = acc * 10 - digit_value(s[i]);
        if next < lo {
            Err(ParseIntError::NegOverflow)
        } else {
            parse_digits(s, i + 1, next, neg, lo, hi)
        }
    } else {
        let next = acc * 10 + digit_value(s[i]);
        if next > hi {
            Err(ParseIntError::PosOverflow)
        } else {
            parse_digits(s, i + 1, next, neg, lo, hi)
        }
    }
}

/// Parses a decimal integer in `lo..=hi` with an optional sign; a `-` sign
/// is accepted only when `lo` is negative.
pub open spec fn parse_int_spec(s: Seq<char>, lo: int, hi: int) -> Result<int, ParseIntError> {
    if s.len() == 0 {
        Err(ParseIntError::Empty)
    } else if (s[0] == '+' || s[0] == '-') && s.len() == 1 {
        Err(ParseIntError::InvalidDigit)
    } else if s[0] == '+' {
        parse_digits(s, 1, 0, false, lo, hi)
    } else if s[0] == '-' && lo < 0 {
        parse_digits(s, 1, 0, true, lo, hi)
    } else {
        parse_digits(s, 0, 0, false, lo, hi)
    }
}

proof fn lemma_parse_digits_bounds(s: Seq<char>, i: int, acc: int, neg: bool, lo: int, hi: int)
    requires
        lo <= acc <= hi,
        lo <= 0 <= hi,
        neg ==> acc <= 0,
        !neg ==> acc >= 0,
    ensures
        parse_digits(s, i, acc, neg, lo, hi) matches Ok(v) ==> lo <= v <= hi,
    decreases s.len() - i,
{
    if 0 <= i < s.len() && '0' <= s[i] && s[i] <= '9' {
        if neg {
            let next = acc * 10 - digit_value(s[i]);
            if next >= lo {
                assert(next <= hi) by (nonlinear_arith)
                    requires acc <= 0, next == acc * 10 - digit_value(s[i]), 0 <= digit_value(s[i]) <= 9, 0 <= hi;
                lemma_parse_digits_bounds(s, i + 1, next, neg, lo, hi);
            }
        } else {
            let next = acc * 10 + digit_value(s[i]);
            if next <= hi {
                assert(next >= lo) by (nonlinear_arith)
                    requires acc >= 0, next == acc * 10 + digit_value(s[i]), 0 <= digit_value(s[i]) <= 9, lo <= 0;
                lemma_parse_digits_bounds(s, i + 1, next, neg, lo, hi);
            }
        }
    }
}

/// Parses a decimal integer in `lo..=hi` with an optional sign.
pub fn parse_int(s: &[char], lo: i128, hi: i128) -> (r: Result<i128, ParseIntError>)
    requires
        -0x8000_0000_0000_0000 <= lo <= 0 <= hi <= 0xffff_ffff_ffff_ffff,
    ensures
        match (r, parse_int_spec(s@, lo as int, hi as int)) {
            (Ok(v), Ok(w)) => v == w && lo <= v <= hi,
            (Err(e), Err(f)) => e == f,
            _ => false,
        },
{
    let n = s.len();
    if n == 0 {
        return Err(ParseIntError::Empty);
    }
    if (s[0] == '+' || s[0] == '-') && n == 1 {
        return Err(ParseIntError::InvalidDigit);
    }
    let (start, neg): (usize, bool) = if s[0] == '+' {
        (1, false)
    } else if s[0] == '-' && lo < 0 {
        (1, true)
    } else {
        (0, false)
    };
    let mut acc: i128 = 0;
    let mut i: usize = start;
    proof {
        lemma_parse_digits_bounds(s@, start as int, 0, neg, lo as int, hi as int);
        assert(parse_int_spec(s@, lo as int, hi as int) == parse_digits(s@, start as int, 0, neg, lo as int, hi as int));
    }
    while i < n
        invariant
            start <= i <= n,
            n == s@.len(),
            lo <= acc <= hi,
            neg ==> acc <= 0,
            !neg ==> acc >= 0,
            parse_int_spec(s@, lo as int, hi as int) == parse_digits(s@, start as int, 0, neg, lo as int, hi as int),
            -0x8000_0000_0000_0000 <= lo <= 0 <= hi <= 0xffff_ffff_ffff_ffff,
            parse_digits(s@, start as int, 0, neg, lo as int, hi as int) == parse_digits(s@, i as int, acc as int, neg, lo as int, hi as int),
        decreases n - i,
    {
        let c = s[i];
        if !('0' <= c && c <= '9') {
            return Err(ParseIntError::InvalidDigit);
        }
        let d: i128 = (c as u32 - '0' as u32) as i128;
        proof {
            assert(d == digit_value(c));
        }
        if neg {
            let next = acc * 10 - d;
            if next < lo {
                return Err(ParseIntError::NegOverflow);
            }
            assert(next <= 0) by (nonlinear_arith)
                requires acc <= 0, next == acc * 10 - d, 0 <= d <= 9;
            acc = next;
        } else {
            let next = acc * 10 + d;
            if next > hi {
                return Err(ParseIntError::PosOverflow);
            }
            assert(next >= 0) by (nonlinear_arith)
                requires acc >= 0, next == acc * 10 + d, 0 <= d <= 9;
            acc = next;
        }
        i = i + 1;
    }
    proof {
        lemma_parse_digits_bounds(s@, start as int, 0, neg, lo as int, hi as int);
    }
    Ok(acc)
}

} // verus!
