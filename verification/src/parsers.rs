//! Attribute values as typed values.

use vstd::prelude::*;

verus! {

/// The value of a decimal digit.
pub open spec fn digit_value(c: char) -> Option<int> {
    if '0' <= c <= '9' {
        Some(c as int - '0' as int)
    } else {
        None
    }
}

/// The number that a run of decimal digits denotes; the empty run
/// denotes zero, and a run with anything but digits in it denotes
/// nothing.
pub open spec fn digits_value(digits: Seq<char>) -> Option<int>
    decreases digits.len(),
{
    if digits.len() == 0 {
        Some(0)
    } else {
        match (digits_value(digits.drop_last()), digit_value(digits.last())) {
            (Some(high), Some(low)) => Some(high * 10 + low),
            _ => None,
        }
    }
}

/// The integer that a text denotes: an optional sign, `+` or `-`, and
/// then one decimal digit or more, with nothing before, between or after.
pub open spec fn parsed_integer(text: Seq<char>) -> Option<int> {
    if text.len() > 0 && text[0] == '-' {
        if text.len() > 1 {
            match digits_value(text.skip(1)) {
                Some(v) => Some(-v),
                None => None,
            }
        } else {
            None
        }
    } else if text.len() > 0 && text[0] == '+' {
        if text.len() > 1 {
            digits_value(text.skip(1))
        } else {
            None
        }
    } else if text.len() > 0 {
        digits_value(text)
    } else {
        None
    }
}

/// A run of digits denotes at least what any of its beginnings denotes,
/// and nothing where one of its beginnings denotes nothing.
proof fn lemma_digits_grow(digits: Seq<char>, n: int)
    requires
        0 <= n <= digits.len(),
    ensures
        digits_value(digits.take(n)) is None ==> digits_value(digits) is None,
        digits_value(digits) matches Some(v) ==> digits_value(digits.take(n)) matches Some(p) && 0
            <= p <= v,
    decreases digits.len() - n,
{
    if n == digits.len() {
        assert(digits.take(n) =~= digits);
        lemma_digits_nonnegative(digits);
    } else {
        assert(digits.drop_last().take(n) =~= digits.take(n));
        lemma_digits_grow(digits.drop_last(), n);
    }
}

proof fn lemma_digits_nonnegative(digits: Seq<char>)
    ensures
        digits_value(digits) matches Some(v) ==> v >= 0,
    decreases digits.len(),
{
    if digits.len() > 0 {
        lemma_digits_nonnegative(digits.drop_last());
    }
}

/// The number that the characters of `text` from `start` on denote as a
/// run of digits, where it is at most `limit`.
fn parse_digits(text: &str, start: usize, limit: i64) -> (r: Option<i64>)
    requires
        start <= text@.len(),
        0 <= limit <= 0x1_0000_0000,
    ensures
        match r {
            Some(x) => 0 <= x <= limit && digits_value(text@.skip(start as int)) == Some(x as int),
            None => digits_value(text@.skip(start as int)) matches Some(v) ==> v > limit,
        },
{
    let n = text.unicode_len();
    let ghost digits = text@.skip(start as int);
    let mut value: i64 = 0;
    let mut i: usize = start;
    assert(digits.take(0) =~= Seq::empty());
    while i < n
        invariant
            start <= i <= n,
            n == text@.len(),
            digits == text@.skip(start as int),
            0 <= limit <= 0x1_0000_0000,
            0 <= value <= limit,
            digits_value(digits.take(i - start)) == Some(value as int),
        decreases n - i,
    {
        let c = text.get_char(i);
        proof {
            assert(digits.take(i - start + 1).drop_last() =~= digits.take(i - start));
            assert(digits.take(i - start + 1).last() == c);
            lemma_digits_grow(digits, i - start + 1);
        }
        if c < '0' || c > '9' {
            return None;
        }
        let low: i64 = (c as u32 - '0' as u32) as i64;
        let next: i64 = value * 10 + low;
        if next > limit {
            return None;
        }
        value = next;
        i += 1;
    }
    assert(digits.take(i - start) =~= digits);
    Some(value)
}

/// Reads a text as an `i32`.  `None` where the text denotes no integer
/// or one that an `i32` cannot hold.
pub fn parse_i32(text: &str) -> (r: Option<i32>)
    ensures
        r == match parsed_integer(text@) {
            Some(v) => if i32::MIN <= v <= i32::MAX {
                Some(v as i32)
            } else {
                None
            },
            None => None,
        },
{
    let n = text.unicode_len();
    if n == 0 {
        return None;
    }
    let first = text.get_char(0);
    if first == '-' {
        if n == 1 {
            return None;
        }
        match parse_digits(text, 1, 0x8000_0000) {
            Some(v) => Some((-v) as i32),
            None => None,
        }
    } else if first == '+' {
        if n == 1 {
            return None;
        }
        match parse_digits(text, 1, 0x7fff_ffff) {
            Some(v) => Some(v as i32),
            None => None,
        }
    } else {
        assert(text@.skip(0) =~= text@);
        match parse_digits(text, 0, 0x7fff_ffff) {
            Some(v) => Some(v as i32),
            None => None,
        }
    }
}

/// Reads a text as a `u32`.  `None` where the text denotes no integer,
/// a negative one, or one that a `u32` cannot hold.
pub fn parse_u32(text: &str) -> (r: Option<u32>)
    ensures
        r == match parsed_integer(text@) {
            Some(v) => if 0 <= v <= u32::MAX {
                Some(v as u32)
            } else {
                None
            },
            None => None,
        },
{
    let n = text.unicode_len();
    if n == 0 {
        return None;
    }
    let first = text.get_char(0);
    if first == '-' {
        if n == 1 {
            return None;
        }
        proof {
            lemma_digits_nonnegative(text@.skip(1));
        }
        match parse_digits(text, 1, 0) {
            Some(v) => Some(0u32),
            None => None,
        }
    } else if first == '+' {
        if n == 1 {
            return None;
        }
        match parse_digits(text, 1, 0xffff_ffff) {
            Some(v) => Some(v as u32),
            None => None,
        }
    } else {
        assert(text@.skip(0) =~= text@);
        match parse_digits(text, 0, 0xffff_ffff) {
            Some(v) => Some(v as u32),
            None => None,
        }
    }
}

} // verus!
