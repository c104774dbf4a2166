//! Decimal numbers and version numbers as the header writes them.

use vstd::prelude::*;
use crate::wire::byte_position;
use crate::wire::find_byte;

verus! {

/// Whether `b` is an ASCII digit.
pub open spec fn is_digit(b: u8) -> bool {
    0x30 <= b <= 0x39
}

/// Whether every byte of `s` is an ASCII digit.
pub open spec fn all_digits(s: Seq<u8>) -> bool {
    forall|i: int| 0 <= i < s.len() ==> is_digit(#[trigger] s[i])
}

/// The value of a digit; zero for any other byte.
pub open spec fn digit_value(b: u8) -> nat {
    if is_digit(b) {
        (b - 0x30) as nat
    } else {
        0
    }
}

/// The value of a string of digits read as a decimal number.
pub open spec fn digits_value(s: Seq<u8>) -> nat
    decreases s.len(),
{
    if s.len() == 0 {
        0
    } else {
        digits_value(s.drop_last()) * 10 + digit_value(s.last())
    }
}

/// The number that `s` writes in decimal: `s` is not empty, holds digits
/// only, and its value fits in 32 bits.
pub open spec fn decimal(s: Seq<u8>) -> Option<u32> {
    if s.len() > 0 && all_digits(s) && digits_value(s) <= u32::MAX {
        Some(digits_value(s) as u32)
    } else {
        None
    }
}

/// The version that `s` writes: a decimal number, or two of them around
/// the first full stop. Without a full stop the minor number is zero.
pub open spec fn version_of(s: Seq<u8>) -> Option<(u32, u32)> {
    match byte_position(s, 0x2e, 0) {
        None => match decimal(s) {
            Some(major) => Some((major, 0u32)),
            None => None,
        },
        Some(dot) => match (decimal(s.subrange(0, dot)), decimal(s.subrange(dot + 1, s.len() as int))) {
            (Some(major), Some(minor)) => Some((major, minor)),
            _ => None,
        },
    }
}

/// The value of a prefix of a decimal string is at most the value of the
/// whole.
pub proof fn lemma_digits_prefix(s: Seq<u8>, k: int)
    requires
        0 <= k <= s.len(),
    ensures
        digits_value(s.take(k)) <= digits_value(s),
    decreases s.len(),
{
    if k == s.len() {
        assert(s.take(k) == s);
    } else {
        lemma_digits_prefix(s.drop_last(), k);
        assert(s.drop_last().take(k) == s.take(k));
    }
}

/// Reads a decimal number.
pub fn parse_decimal(s: &[u8]) -> (res: Option<u32>)
    ensures
        res == decimal(s@),
{
    if s.len() == 0 {
        return None;
    }
    let mut acc: u32 = 0;
    let mut i: usize = 0;
    while i < s.len()
        invariant
            i <= s@.len(),
            acc as nat == digits_value(s@.take(i as int)),
            all_digits(s@.take(i as int)),
        decreases s@.len() - i,
    {
        let b: u8 = s[i];
        proof {
            assert(s@.take(i + 1).drop_last() == s@.take(i as int));
        }
        if b < 0x30 || b > 0x39 {
            return None;
        }
        let d: u32 = (b - 0x30) as u32;
        if acc > (u32::MAX - d) / 10 {
            proof {
                lemma_digits_prefix(s@, i + 1);
            }
            return None;
        }
        acc = acc * 10 + d;
        i = i + 1;
    }
    proof {
        assert(s@.take(i as int) == s@);
    }
    Some(acc)
}

/// Reads a version number.
pub fn parse_version(s: &[u8]) -> (res: Option<(u32, u32)>)
    ensures
        res == version_of(s@),
{
    match find_byte(s, 0x2e, 0) {
        None => match parse_decimal(s) {
            Some(major) => Some((major, 0)),
            None => None,
        },
        Some(dot) => {
            let total: usize = s.len();
            let head = vstd::slice::slice_subrange(s, 0, dot);
            let tail = vstd::slice::slice_subrange(s, dot + 1, total);
            match (parse_decimal(head), parse_decimal(tail)) {
                (Some(major), Some(minor)) => Some((major, minor)),
                _ => None,
            }
        },
    }
}

} // verus!
