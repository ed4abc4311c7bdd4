//! Comparison of 32-bit IEEE-754 floating-point numbers held by their bit patterns.
//!
//! The sign bit is the top bit and the remaining 31 bits are the magnitude, ordered as
//! an unsigned integer; a magnitude above that of infinity is a NaN. Comparisons follow
//! IEEE-754: NaN is unordered and unequal to everything, and the two zeros are equal.
use vstd::prelude::*;

verus! {

/// The bit pattern's sign bit.
pub const SIGN_BIT: u32 = 0x8000_0000;

/// The bit pattern of positive infinity, the greatest non-NaN magnitude.
pub const INFINITY_BITS: u32 = 0x7f80_0000;

/// The magnitude part of a bit pattern.
pub open spec fn magnitude(bits: u32) -> int {
    if bits >= SIGN_BIT {
        bits - SIGN_BIT
    } else {
        bits as int
    }
}

/// The bit pattern is a NaN.
pub open spec fn is_nan(bits: u32) -> bool {
    magnitude(bits) > INFINITY_BITS
}

/// A signed integer that orders non-NaN bit patterns as their numbers are ordered
/// (both zeros map to 0).
pub open spec fn order_key(bits: u32) -> int {
    if bits >= SIGN_BIT {
        -magnitude(bits)
    } else {
        magnitude(bits)
    }
}

/// `a < b` on the numbers the bit patterns hold.
pub open spec fn float_lt(a: u32, b: u32) -> bool {
    !is_nan(a) && !is_nan(b) && order_key(a) < order_key(b)
}

/// `a == b` on the numbers the bit patterns hold.
pub open spec fn float_eq(a: u32, b: u32) -> bool {
    !is_nan(a) && !is_nan(b) && order_key(a) == order_key(b)
}

/// The order key of a bit pattern, or `None` for a NaN.
fn ordered(bits: u32) -> (r: Option<i64>)
    ensures
        match r {
            Some(k) => !is_nan(bits) && k == order_key(bits),
            None => is_nan(bits),
        },
{
    let negative = bits >= SIGN_BIT;
    let mag: u32 = if negative {
        bits - SIGN_BIT
    } else {
        bits
    };
    if mag > INFINITY_BITS {
        None
    } else if negative {
        Some(-(mag as i64))
    } else {
        Some(mag as i64)
    }
}

/// Whether the number held by `a` is less than that held by `b`.
pub fn float_less(a: u32, b: u32) -> (r: bool)
    ensures
        r == float_lt(a, b),
{
    match (ordered(a), ordered(b)) {
        (Some(x), Some(y)) => x < y,
        _ => false,
    }
}

/// Whether the numbers held by `a` and `b` are equal.
pub fn float_equal(a: u32, b: u32) -> (r: bool)
    ensures
        r == float_eq(a, b),
{
    match (ordered(a), ordered(b)) {
        (Some(x), Some(y)) => x == y,
        _ => false,
    }
}

} // verus!
