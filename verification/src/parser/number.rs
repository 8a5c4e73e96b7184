//! Numeric literals: decimal, or hexadecimal behind `0x`, with an optional
//! sign.

use vstd::prelude::*;
use vstd::string::*;
use crate::parser::{LineError, LineFault};
use crate::text::chars_of;

verus! {

/// The value of a digit in a radix of at most 36: `0` to `9`, then the
/// letters in either case. No value where the digit is not below the radix.
pub open spec fn digit_value(c: char, radix: u32) -> Option<nat> {
    let code = c as u32;
    let d: int = if 48 <= code <= 57 {
        code - 48
    } else if 97 <= code <= 122 {
        code - 97 + 10
    } else if 65 <= code <= 90 {
        code - 65 + 10
    } else {
        36
    };
    if d < radix {
        Some(d as nat)
    } else {
        None
    }
}

/// The number that a non-empty run of digits stands for, however large.
pub open spec fn digits_value(s: Seq<char>, radix: u32) -> Option<nat>
    decreases s.len(),
{
    if s.len() == 0 {
        None
    } else {
        match digit_value(s.last(), radix) {
            None => None,
            Some(d) => if s.len() == 1 {
                Some(d)
            } else {
                match digits_value(s.drop_last(), radix) {
                    Some(high) => Some((high * radix + d) as nat),
                    None => None,
                }
            },
        }
    }
}

/// The number that digits behind an optional `+` stand for.
pub open spec fn unsigned_value(s: Seq<char>, radix: u32) -> Option<nat> {
    if s.len() > 0 && s[0] == '+' {
        digits_value(s.skip(1), radix)
    } else {
        digits_value(s, radix)
    }
}

/// The number that digits behind an optional `+` or `-` stand for.
pub open spec fn signed_value(s: Seq<char>, radix: u32) -> Option<int> {
    if s.len() > 0 && s[0] == '-' {
        match digits_value(s.skip(1), radix) {
            Some(v) => Some(-(v as int)),
            None => None,
        }
    } else {
        match unsigned_value(s, radix) {
            Some(v) => Some(v as int),
            None => None,
        }
    }
}

/// Whether the text starts with `0x`.
pub open spec fn has_hex_prefix(s: Seq<char>) -> bool {
    s.len() >= 2 && s[0] == '0' && s[1] == 'x'
}

/// The value of an unsigned literal: hexadecimal behind `0x`, else decimal;
/// no value where it is malformed or above `limit`.
pub open spec fn literal_value(s: Seq<char>, limit: nat) -> Option<nat> {
    let value = if has_hex_prefix(s) {
        unsigned_value(s.skip(2), 16)
    } else {
        unsigned_value(s, 10)
    };
    match value {
        Some(v) => if v <= limit {
            Some(v)
        } else {
            None
        },
        None => None,
    }
}

/// The value of a signed literal of 32 bits: hexadecimal behind `0x`, else
/// decimal; no value where it is malformed or out of range.
pub open spec fn signed_literal_value(s: Seq<char>) -> Option<int> {
    let value = if has_hex_prefix(s) {
        signed_value(s.skip(2), 16)
    } else {
        signed_value(s, 10)
    };
    match value {
        Some(v) => if -0x8000_0000 <= v <= 0x7fff_ffff {
            Some(v)
        } else {
            None
        },
        None => None,
    }
}

/// A run of digits stands for at least what any of its starts stands for,
/// and for nothing unless each start stands for something.
pub proof fn lemma_digits_prefix(s: Seq<char>, radix: u32, k: int)
    requires
        0 < k <= s.len(),
    ensures
        digits_value(s, radix) matches Some(v) ==> (digits_value(s.subrange(0, k), radix) matches Some(
            h,
        ) && h <= v),
    decreases s.len(),
{
    if k == s.len() {
        assert(s.subrange(0, k) =~= s);
    } else {
        assert(s.drop_last().subrange(0, k) =~= s.subrange(0, k));
        lemma_digits_prefix(s.drop_last(), radix, k);
        if let Some(v) = digits_value(s, radix) {
            let high = digits_value(s.drop_last(), radix)->0;
            assert(high <= high * radix) by (nonlinear_arith)
                requires
                    radix >= 1,
                    high >= 0,
            ;
        }
    }
}

/// The value of the digit `c`, if it is one in the radix.
pub fn digit_of(c: char, radix: u32) -> (d: Option<u32>)
    requires
        radix <= 36,
    ensures
        d matches Some(v) ==> digit_value(c, radix) == Some(v as nat),
        d is None ==> digit_value(c, radix) is None,
{
    let code: u32 = c as u32;
    let d: u32 = if 48 <= code && code <= 57 {
        code - 48
    } else if 97 <= code && code <= 122 {
        code - 97 + 10
    } else if 65 <= code && code <= 90 {
        code - 65 + 10
    } else {
        36
    };
    if d < radix {
        Some(d)
    } else {
        None
    }
}

/// Reads the digits from `from` to the end; none where they are no number
/// or one above `limit`.
pub fn parse_digits(chars: &Vec<char>, from: usize, radix: u32, limit: u64) -> (value: Option<u64>)
    requires
        from <= chars@.len(),
        1 <= radix <= 36,
        limit <= 0xffff_ffff,
    ensures
        value == match digits_value(chars@.subrange(from as int, chars@.len() as int), radix) {
            Some(v) => if v <= limit {
                Some(v as u64)
            } else {
                None
            },
            None => None,
        },
{
    let ghost digits = chars@.subrange(from as int, chars@.len() as int);
    if from >= chars.len() {
        return None;
    }
    let mut acc: u64 = 0;
    let mut at: usize = from;
    while at < chars.len()
        invariant
            from <= at <= chars@.len(),
            from < chars@.len(),
            1 <= radix <= 36,
            limit <= 0xffff_ffff,
            acc <= limit,
            digits == chars@.subrange(from as int, chars@.len() as int),
            at > from ==> digits_value(digits.subrange(0, at - from), radix) == Some(acc as nat),
            at == from ==> acc == 0,
        decreases chars@.len() - at,
    {
        let ghost before = digits.subrange(0, at - from);
        let ghost now = digits.subrange(0, at + 1 - from);
        proof {
            assert(now.drop_last() =~= before);
            assert(now.last() == chars@[at as int]);
            lemma_digits_prefix(digits, radix, at + 1 - from);
        }
        match digit_of(chars[at], radix) {
            None => {
                return None;
            },
            Some(d) => {
                assert(acc * radix + d <= 0xffff_ffff * 36 + 36) by (nonlinear_arith)
                    requires
                        acc <= 0xffff_ffff,
                        radix <= 36,
                        d < 36,
                ;
                let next: u64 = acc * (radix as u64) + d as u64;
                assert(digits_value(now, radix) == Some(next as nat));
                if next > limit {
                    return None;
                }
                acc = next;
            },
        }
        at += 1;
    }
    assert(digits.subrange(0, at - from) =~= digits);
    Some(acc)
}

/// Reads digits behind an optional `+`, from `from` to the end.
pub fn parse_unsigned(chars: &Vec<char>, from: usize, radix: u32, limit: u64) -> (value: Option<
    u64,
>)
    requires
        from <= chars@.len(),
        1 <= radix <= 36,
        limit <= 0xffff_ffff,
    ensures
        value == match unsigned_value(chars@.subrange(from as int, chars@.len() as int), radix) {
            Some(v) => if v <= limit {
                Some(v as u64)
            } else {
                None
            },
            None => None,
        },
{
    let ghost s = chars@.subrange(from as int, chars@.len() as int);
    if from < chars.len() && chars[from] == '+' {
        assert(s.skip(1) =~= chars@.subrange(from + 1, chars@.len() as int));
        parse_digits(chars, from + 1, radix, limit)
    } else {
        parse_digits(chars, from, radix, limit)
    }
}

/// Reads digits behind an optional sign, from `from` to the end, as a
/// number of 32 bits.
pub fn parse_signed(chars: &Vec<char>, from: usize, radix: u32) -> (value: Option<i32>)
    requires
        from <= chars@.len(),
        1 <= radix <= 36,
    ensures
        value == match signed_value(chars@.subrange(from as int, chars@.len() as int), radix) {
            Some(v) => if -0x8000_0000 <= v <= 0x7fff_ffff {
                Some(v as i32)
            } else {
                None
            },
            None => None,
        },
{
    let ghost s = chars@.subrange(from as int, chars@.len() as int);
    if from < chars.len() && chars[from] == '-' {
        assert(s.skip(1) =~= chars@.subrange(from + 1, chars@.len() as int));
        match parse_digits(chars, from + 1, radix, 0x8000_0000) {
            Some(v) => Some((-(v as i64)) as i32),
            None => None,
        }
    } else {
        match parse_unsigned(chars, from, radix, 0x7fff_ffff) {
            Some(v) => Some(v as i32),
            None => None,
        }
    }
}

/// Whether the characters start with `0x`.
pub fn starts_with_hex_prefix(chars: &Vec<char>) -> (hex: bool)
    ensures
        hex == has_hex_prefix(chars@),
{
    chars.len() >= 2 && chars[0] == '0' && chars[1] == 'x'
}

/// Reads a signed literal of 32 bits.
pub fn parse_signed_literal(number: &str) -> (value: Option<i32>)
    ensures
        value == match signed_literal_value(number@) {
            Some(v) => Some(v as i32),
            None => None,
        },
{
    let chars = chars_of(number);
    if starts_with_hex_prefix(&chars) {
        assert(number@.skip(2) =~= chars@.subrange(2, chars@.len() as int));
        parse_signed(&chars, 2, 16)
    } else {
        assert(number@ =~= chars@.subrange(0, chars@.len() as int));
        parse_signed(&chars, 0, 10)
    }
}

/// The unsigned integers that an operand can be.
pub trait FromStrRadix: Sized {
    /// The greatest number of the type.
    spec fn limit() -> nat;

    /// The number that a value of the type is.
    spec fn number(self) -> nat;

    /// Reads digits in the given radix behind an optional `+`. It fails
    /// where the text is no such number or the number does not fit the
    /// type.
    fn from_str_radix(src: &str, radix: u32) -> (res: Result<Self, LineError>)
        requires
            1 <= radix <= 36,
        ensures
            match unsigned_value(src@, radix) {
                Some(v) => if v <= Self::limit() {
                    res matches Ok(n) && n.number() == v
                } else {
                    res matches Err(e) && e@ == LineFault::ParseIntErr
                },
                None => res matches Err(e) && e@ == LineFault::ParseIntErr,
            },
    ;
}

impl FromStrRadix for u8 {
    open spec fn limit() -> nat {
        0xff
    }

    open spec fn number(self) -> nat {
        self as nat
    }

    fn from_str_radix(src: &str, radix: u32) -> (res: Result<Self, LineError>) {
        let chars = chars_of(src);
        assert(src@ =~= chars@.subrange(0, chars@.len() as int));
        match parse_unsigned(&chars, 0, radix, 0xff) {
            Some(v) => Ok(v as u8),
            None => Err(LineError::ParseIntErr),
        }
    }
}

impl FromStrRadix for u16 {
    open spec fn limit() -> nat {
        0xffff
    }

    open spec fn number(self) -> nat {
        self as nat
    }

    fn from_str_radix(src: &str, radix: u32) -> (res: Result<Self, LineError>) {
        let chars = chars_of(src);
        assert(src@ =~= chars@.subrange(0, chars@.len() as int));
        match parse_unsigned(&chars, 0, radix, 0xffff) {
            Some(v) => Ok(v as u16),
            None => Err(LineError::ParseIntErr),
        }
    }
}

impl FromStrRadix for u32 {
    open spec fn limit() -> nat {
        0xffff_ffff
    }

    open spec fn number(self) -> nat {
        self as nat
    }

    fn from_str_radix(src: &str, radix: u32) -> (res: Result<Self, LineError>) {
        let chars = chars_of(src);
        assert(src@ =~= chars@.subrange(0, chars@.len() as int));
        match parse_unsigned(&chars, 0, radix, 0xffff_ffff) {
            Some(v) => Ok(v as u32),
            None => Err(LineError::ParseIntErr),
        }
    }
}

/// Reads an unsigned literal: hexadecimal behind `0x`, else decimal. It
/// fails where the text is no such literal or the number does not fit the
/// type.
pub fn parse_number<T: FromStrRadix>(number: &str) -> (res: Result<T, LineError>)
    ensures
        match literal_value(number@, T::limit()) {
            Some(v) => res matches Ok(n) && n.number() == v,
            None => res matches Err(e) && e@ == LineFault::ParseIntErr,
        },
{
    let chars = chars_of(number);
    if starts_with_hex_prefix(&chars) {
        let slice = number.substring_char(2, chars.len());
        assert(slice@ =~= number@.skip(2));
        T::from_str_radix(slice, 16)
    } else {
        T::from_str_radix(number, 10)
    }
}

} // verus!
