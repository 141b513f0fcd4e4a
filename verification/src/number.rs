//! The numbers of a vendor description: hexadecimal behind `0x` or `0X`,
//! octal behind another leading `0`, decimal otherwise.

use vstd::prelude::*;
use vstd::string::StrSliceExecFns;
use crate::error::Error;

verus! {

/// The value of the digit `c` in the base `radix`, if it is a digit of that
/// base: `0` to `9`, then the letters in either case.
pub open spec fn digit_value(c: char, radix: nat) -> Option<nat> {
    let n = c as u32 as nat;
    let v: nat = if 48 <= n <= 57 {
        (n - 48) as nat
    } else if 97 <= n <= 122 {
        (n - 87) as nat
    } else if 65 <= n <= 90 {
        (n - 55) as nat
    } else {
        radix
    };
    if v < radix {
        Some(v)
    } else {
        None
    }
}

/// The value of the digits `s` in the base `radix`, the highest digit first:
/// none if any character is not a digit of that base.
pub open spec fn digits_value(s: Seq<char>, radix: nat) -> Option<nat>
    decreases s.len(),
{
    if s.len() == 0 {
        Some(0)
    } else {
        match (digits_value(s.drop_last(), radix), digit_value(s.last(), radix)) {
            (Some(high), Some(low)) => Some(high * radix + low),
            _ => None,
        }
    }
}

/// The value of one digit at least, which a `+` may precede.
pub open spec fn unsigned_value(s: Seq<char>, radix: nat) -> Option<nat> {
    let digits = if s.len() > 0 && s[0] == '+' {
        s.skip(1)
    } else {
        s
    };
    if digits.len() == 0 {
        None
    } else {
        digits_value(digits, radix)
    }
}

/// The number that `s` denotes, if it denotes one.
pub open spec fn number_value(s: Seq<char>) -> Option<nat> {
    if s.len() >= 2 && s[0] == '0' && (s[1] == 'x' || s[1] == 'X') {
        unsigned_value(s.skip(2), 16)
    } else if s.len() > 1 && s[0] == '0' {
        unsigned_value(s.skip(1), 8)
    } else {
        unsigned_value(s, 10)
    }
}

/// Digits that have a value have one from their first digit on, and the
/// value does not fall as digits follow.
proof fn lemma_prefix_value(s: Seq<char>, radix: nat, k: int)
    requires
        0 <= k <= s.len(),
        digits_value(s, radix) is Some,
    ensures
        digits_value(s.subrange(0, k), radix) is Some,
        digits_value(s.subrange(0, k), radix).unwrap() <= digits_value(s, radix).unwrap(),
    decreases s.len(),
{
    if k == s.len() {
        assert(s.subrange(0, k) =~= s);
    } else {
        lemma_prefix_value(s.drop_last(), radix, k);
        assert(s.drop_last().subrange(0, k) =~= s.subrange(0, k));
        let high = digits_value(s.drop_last(), radix).unwrap();
        assert(high <= high * radix + digit_value(s.last(), radix).unwrap()) by (nonlinear_arith)
            requires
                radix >= 1,
        ;
    }
}

/// The value of the digit `c` in the base `radix`.
fn digit(c: char, radix: u32) -> (r: Option<u32>)
    ensures
        match r {
            Some(v) => digit_value(c, radix as nat) == Some(v as nat) && v < radix,
            None => digit_value(c, radix as nat) is None,
        },
{
    let n = c as u32;
    let v = if 48 <= n && n <= 57 {
        n - 48
    } else if 97 <= n && n <= 122 {
        n - 87
    } else if 65 <= n && n <= 90 {
        n - 55
    } else {
        radix
    };
    if v < radix {
        Some(v)
    } else {
        None
    }
}

/// Reads a number. What is no number, or does not fit in 32 bits, is
/// malformed.
pub fn parse_int(text: &str) -> (r: Result<u32, Error>)
    ensures
        match r {
            Ok(v) => number_value(text@) == Some(v as nat),
            Err(e) => e == Error::Parse && (number_value(text@) matches Some(v) ==> v > u32::MAX),
        },
{
    let len = text.unicode_len();
    let mut start: usize = 0;
    let mut radix: u32 = 10;
    if len >= 2 && text.get_char(0) == '0' && (text.get_char(1) == 'x' || text.get_char(1) == 'X') {
        start = 2;
        radix = 16;
    } else if len > 1 && text.get_char(0) == '0' {
        start = 1;
        radix = 8;
    }
    let ghost body = text@.skip(start as int);
    if start < len && text.get_char(start) == '+' {
        start = start + 1;
    }
    let ghost digits = text@.subrange(start as int, len as int);
    proof {
        assert(text@.skip(0) =~= text@);
        assert(number_value(text@) == unsigned_value(body, radix as nat));
        if body.len() > 0 && body[0] == '+' {
            assert(body.skip(1) =~= digits);
        } else {
            assert(body =~= digits);
        }
    }
    if start >= len {
        return Err(Error::Parse);
    }
    let mut value: u64 = 0;
    let mut i: usize = start;
    assert(digits.subrange(0, 0) =~= Seq::<char>::empty());
    while i < len
        invariant
            start <= i <= len,
            len == text@.len(),
            2 <= radix <= 16,
            digits == text@.subrange(start as int, len as int),
            number_value(text@) == digits_value(digits, radix as nat),
            digits_value(digits.subrange(0, i - start), radix as nat) == Some(value as nat),
            value <= u32::MAX,
        decreases len - i,
    {
        let c = text.get_char(i);
        let ghost seen = digits.subrange(0, i - start);
        let ghost next = digits.subrange(0, i - start + 1);
        proof {
            assert(next.drop_last() =~= seen);
            assert(next.last() == c);
        }
        let d = match digit(c, radix) {
            Some(d) => d,
            None => {
                proof {
                    if digits_value(digits, radix as nat) is Some {
                        lemma_prefix_value(digits, radix as nat, i - start + 1);
                    }
                }
                return Err(Error::Parse);
            },
        };
        assert(value * radix + d <= 0xffff_ffff * 16 + 16) by (nonlinear_arith)
            requires
                value <= 0xffff_ffff,
                radix <= 16,
                d < 16,
        ;
        let grown: u64 = value * (radix as u64) + d as u64;
        if grown > 0xffff_ffff {
            proof {
                if digits_value(digits, radix as nat) is Some {
                    lemma_prefix_value(digits, radix as nat, i - start + 1);
                }
            }
            return Err(Error::Parse);
        }
        value = grown;
        i += 1;
    }
    assert(digits.subrange(0, len - start) =~= digits);
    Ok(value as u32)
}

/// What holds of a register where the register itself, its peripheral and
/// its device may each say it: the nearest of them decides.
pub fn inherited<T: Copy>(own: Option<T>, peripheral: Option<T>, device: Option<T>) -> (r: Option<T>)
    ensures
        r == (match own {
            Some(v) => Some(v),
            None => match peripheral {
                Some(v) => Some(v),
                None => device,
            },
        }),
{
    match own {
        Some(v) => Some(v),
        None => match peripheral {
            Some(v) => Some(v),
            None => device,
        },
    }
}

} // verus!
