//! Single-precision scalars as IEEE-754 bit patterns.
//!
//! A pattern is a sign bit, eight exponent bits and twenty-three fraction
//! bits. Everything here is decided on the integer value of the pattern; no
//! pattern is ever combined arithmetically with another.
use vstd::prelude::*;

verus! {

/// The pattern of the positive infinity; every larger magnitude is not a number.
pub const INFINITY_BITS: u32 = 0x7f80_0000;

/// The sign bit of a pattern.
pub const SIGN_BIT: u32 = 0x8000_0000;

/// The pattern of the scalar one.
pub const ONE_BITS: u32 = 0x3f80_0000;

/// The pattern of the guard `1e-10` that is added to a divisor.
pub const EPSILON_BITS: u32 = 0x2edb_e6ff;

/// The pattern with its sign bit cleared: the pattern of the absolute value.
pub open spec fn magnitude(bits: u32) -> u32 {
    if bits >= SIGN_BIT {
        (bits - SIGN_BIT) as u32
    } else {
        bits
    }
}

/// Whether the pattern stands for no number.
pub open spec fn is_nan(bits: u32) -> bool {
    magnitude(bits) > INFINITY_BITS
}

/// Whether the pattern stands for zero, of either sign.
pub open spec fn is_zero(bits: u32) -> bool {
    magnitude(bits) == 0
}

/// An integer that orders the patterns of numbers as the numbers are ordered:
/// for patterns `a` and `b` that are numbers, `a` is at most `b` exactly when
/// `rank(a) <= rank(b)`. Both zeros have rank zero.
pub open spec fn rank(bits: u32) -> int {
    if bits >= SIGN_BIT {
        -(magnitude(bits) as int)
    } else {
        bits as int
    }
}

/// Computes [`magnitude`].
pub fn magnitude_of(bits: u32) -> (m: u32)
    ensures
        m == magnitude(bits),
        m < SIGN_BIT,
{
    if bits >= SIGN_BIT {
        bits - SIGN_BIT
    } else {
        bits
    }
}

/// Decides [`is_nan`].
pub fn not_a_number(bits: u32) -> (nan: bool)
    ensures
        nan == is_nan(bits),
{
    magnitude_of(bits) > INFINITY_BITS
}

/// Decides [`is_zero`].
pub fn zero(bits: u32) -> (z: bool)
    ensures
        z == is_zero(bits),
{
    magnitude_of(bits) == 0
}

/// Decides whether `rank(a) <= rank(b)`.
pub fn at_most(a: u32, b: u32) -> (le: bool)
    ensures
        le == (rank(a) <= rank(b)),
{
    let a_negative = a >= SIGN_BIT;
    let b_negative = b >= SIGN_BIT;
    if a_negative && b_negative {
        magnitude_of(b) <= magnitude_of(a)
    } else if a_negative {
        true
    } else if b_negative {
        magnitude_of(a) == 0 && magnitude_of(b) == 0
    } else {
        a <= b
    }
}

} // verus!
