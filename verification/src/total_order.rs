//! The total order on IEEE-754 binary64 bit patterns.

use vstd::prelude::*;

verus! {

/// The first bit pattern with the sign bit set.
pub const SIGN_BIT: u64 = 0x8000_0000_0000_0000;

/// The bit pattern of positive infinity: every larger pattern with a clear
/// sign bit is a NaN.
pub const INFINITY_BITS: u64 = 0x7ff0_0000_0000_0000;

/// The place of a bit pattern in the total order: patterns with a clear sign
/// bit stand for themselves, and patterns with the sign bit set run downwards
/// from -1 as their magnitude grows. Negative zero comes just below positive
/// zero, and NaNs lie beyond the infinities of their sign.
pub open spec fn order_key(bits: u64) -> int {
    if bits < SIGN_BIT {
        bits as int
    } else {
        -1 - (bits - SIGN_BIT)
    }
}

/// Whether a bit pattern is a NaN: all exponent bits set and a mantissa that
/// is not zero.
pub open spec fn is_nan(bits: u64) -> bool {
    (INFINITY_BITS < bits && bits < SIGN_BIT) || bits > SIGN_BIT + INFINITY_BITS
}

/// Computes the place of a bit pattern in the total order.
pub fn total_order_key(bits: u64) -> (key: i64)
    ensures
        key == order_key(bits),
{
    if bits < SIGN_BIT {
        bits as i64
    } else {
        -1 - ((bits - SIGN_BIT) as i64)
    }
}

/// Tells whether a bit pattern is a NaN.
pub fn is_nan_bits(bits: u64) -> (nan: bool)
    ensures
        nan == is_nan(bits),
{
    (INFINITY_BITS < bits && bits < SIGN_BIT) || bits > SIGN_BIT + INFINITY_BITS
}

/// Two bit patterns with the same place in the order are the same pattern,
/// so the order of the places is a total order of the patterns.
pub proof fn lemma_order_key_injective(a: u64, b: u64)
    requires
        order_key(a) == order_key(b),
    ensures
        a == b,
{
}

} // verus!
