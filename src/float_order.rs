//! Ordering of IEEE-754 double-precision values, read from their bit patterns.
use vstd::prelude::*;

verus! {

/// The sign bit of a 64-bit pattern.
pub const SIGN_BIT: u64 = 0x8000_0000_0000_0000;

/// Exponent all ones and mantissa zero: the bits of positive infinity.
pub const INFINITY_BITS: u64 = 0x7FF0_0000_0000_0000;

/// The exponent and mantissa bits, read as one unsigned integer. For two values of
/// one sign that are not NaN, a larger magnitude has larger such bits.
pub open spec fn magnitude(bits: u64) -> int {
    (bits % SIGN_BIT) as int
}

/// Whether the sign bit is set.
pub open spec fn is_negative(bits: u64) -> bool {
    bits >= SIGN_BIT
}

/// Whether the pattern encodes a NaN: exponent all ones and a nonzero mantissa.
pub open spec fn is_nan(bits: u64) -> bool {
    magnitude(bits) > INFINITY_BITS
}

/// An integer that orders values that are not NaN as the reals (and infinities)
/// they encode are ordered; both zeros map to zero.
pub open spec fn rank(bits: u64) -> int {
    if is_negative(bits) {
        -magnitude(bits)
    } else {
        magnitude(bits)
    }
}

/// IEEE-754 `a < b`: false whenever either side is NaN.
pub open spec fn less(a: u64, b: u64) -> bool {
    !is_nan(a) && !is_nan(b) && rank(a) < rank(b)
}

/// Decides `a < b` for the doubles whose bit patterns are `a` and `b`.
pub fn less_than(a: u64, b: u64) -> (r: bool)
    ensures
        r == less(a, b),
{
    let ma = a % SIGN_BIT;
    let mb = b % SIGN_BIT;
    if ma > INFINITY_BITS || mb > INFINITY_BITS {
        false
    } else if a >= SIGN_BIT {
        if b >= SIGN_BIT {
            mb < ma
        } else {
            ma != 0 || mb != 0
        }
    } else if b >= SIGN_BIT {
        false
    } else {
        ma < mb
    }
}

} // verus!
