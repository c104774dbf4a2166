//! The Adler-32 checksum that guards the header, the key prelude and every
//! block payload.

use vstd::prelude::*;

verus! {

/// The modulus of both running sums.
pub const ADLER_MODULUS: u32 = 65521;

/// The low half of the checksum: one plus the sum of the bytes, reduced.
pub open spec fn adler_low(s: Seq<u8>) -> int
    decreases s.len(),
{
    if s.len() == 0 {
        1
    } else {
        (adler_low(s.drop_last()) + s.last() as int) % 65521
    }
}

/// The high half of the checksum: the sum of the low halves of every
/// non-empty prefix, reduced.
pub open spec fn adler_high(s: Seq<u8>) -> int
    decreases s.len(),
{
    if s.len() == 0 {
        0
    } else {
        (adler_high(s.drop_last()) + adler_low(s)) % 65521
    }
}

/// The Adler-32 checksum of a byte string.
pub open spec fn adler32_of(s: Seq<u8>) -> int {
    adler_high(s) * 65536 + adler_low(s)
}

/// Computes the Adler-32 checksum of `bytes`.
pub fn adler32(bytes: &[u8]) -> (sum: u32)
    ensures
        sum as int == adler32_of(bytes@),
{
    let mut low: u32 = 1;
    let mut high: u32 = 0;
    let mut i: usize = 0;
    while i < bytes.len()
        invariant
            i <= bytes@.len(),
            low as int == adler_low(bytes@.take(i as int)),
            high as int == adler_high(bytes@.take(i as int)),
            low < 65521,
            high < 65521,
        decreases bytes@.len() - i,
    {
        proof {
            assert(bytes@.take(i as int + 1).drop_last() == bytes@.take(i as int));
        }
        low = (low + bytes[i] as u32) % ADLER_MODULUS;
        high = (high + low) % ADLER_MODULUS;
        i = i + 1;
    }
    proof {
        assert(bytes@.take(i as int) == bytes@);
    }
    high * 65536 + low
}

} // verus!
