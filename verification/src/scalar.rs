//! Scalars as ordered keys.
//!
//! The library compares the quantities of a scene (coordinates, ray
//! parameters, colour channels) and never does arithmetic on them. It holds
//! each one as a [`Scalar`]: a 64-bit integer that orders exactly as the
//! number it stands for. The encoding is the usual one for IEEE 754 doubles:
//! the bit pattern of a non-negative number read as a signed integer, and the
//! complement of the bit pattern of its magnitude for a negative one. Zero has
//! the single key `0`; values that are not numbers have no key.
use vstd::prelude::*;

verus! {

/// The key of a real number; see the module text.
pub type Scalar = i64;

/// The key of zero.
pub const ZERO: Scalar = 0;

/// The key of one.
pub const ONE: Scalar = 0x3FF0_0000_0000_0000;

/// The key of positive infinity.
pub const INFINITY: Scalar = 0x7FF0_0000_0000_0000;

/// The key of the smallest step from one to the next number above it: the
/// tolerance within which a quantity counts as zero.
pub const EPSILON: Scalar = 0x3CB0_0000_0000_0000;

/// The key of the negated number.
pub open spec fn negated(k: Scalar) -> Scalar {
    if k == 0 {
        0
    } else {
        (-1 - k) as i64
    }
}

/// The key of the number without its sign.
pub open spec fn magnitude(k: Scalar) -> Scalar {
    if k < 0 {
        negated(k)
    } else {
        k
    }
}

/// The smaller of two keys.
pub open spec fn lower(a: Scalar, b: Scalar) -> Scalar {
    if a <= b {
        a
    } else {
        b
    }
}

/// The larger of two keys.
pub open spec fn upper(a: Scalar, b: Scalar) -> Scalar {
    if a >= b {
        a
    } else {
        b
    }
}

/// `k` limited to the range from `lo` to `hi`.
pub open spec fn limited(k: Scalar, lo: Scalar, hi: Scalar) -> Scalar {
    if k < lo {
        lo
    } else if k > hi {
        hi
    } else {
        k
    }
}

/// Negates the number behind a key. Negation reverses the order of keys and
/// undoes itself.
pub fn negate(k: Scalar) -> (r: Scalar)
    ensures
        r == negated(k),
{
    if k == 0 {
        0
    } else {
        -1 - k
    }
}

/// Drops the sign of the number behind a key.
pub fn abs(k: Scalar) -> (r: Scalar)
    ensures
        r == magnitude(k),
{
    if k < 0 {
        negate(k)
    } else {
        k
    }
}

/// Returns the smaller of two scalars.
pub fn min(a: Scalar, b: Scalar) -> (r: Scalar)
    ensures
        r == lower(a, b),
{
    if a <= b {
        a
    } else {
        b
    }
}

/// Returns the larger of two scalars.
pub fn max(a: Scalar, b: Scalar) -> (r: Scalar)
    ensures
        r == upper(a, b),
{
    if a >= b {
        a
    } else {
        b
    }
}

/// Limits `k` to the range from `lo` to `hi`.
pub fn clamp(k: Scalar, lo: Scalar, hi: Scalar) -> (r: Scalar)
    requires
        lo <= hi,
    ensures
        r == limited(k, lo, hi),
{
    if k < lo {
        lo
    } else if k > hi {
        hi
    } else {
        k
    }
}

/// Negating twice gives the scalar back, and negation reverses the order of
/// any two scalars other than the unused key just below zero.
pub proof fn lemma_negate_involution(a: Scalar, b: Scalar)
    requires
        a != -1,
        b != -1,
    ensures
        negated(negated(a)) == a,
        a < b <==> negated(b) < negated(a),
{
}

} // verus!
