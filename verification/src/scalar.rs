//! Single-precision coordinates carried by their bit patterns.
//!
//! Geometry buffers are exchanged with a rasterizer as 32-bit IEEE-754
//! binary32 words. This module holds such a word as an integer and gives the
//! numeric order of two words in integer terms, so that everything that
//! moves or compares coordinates can be stated and proved exactly.

use vstd::prelude::*;

verus! {

/// The bit that holds the sign of a binary32 word.
pub const SIGN_BIT: u32 = 0x8000_0000;

/// The magnitude of positive infinity; every larger magnitude is a NaN.
pub const INFINITY_MAGNITUDE: u32 = 0x7f80_0000;

/// One binary32 number, held by its bit pattern.
#[derive(Clone, Copy, Debug, PartialEq, Eq, Structural)]
pub struct Scalar {
    pub bits: u32,
}

impl Scalar {
    /// Positive zero, the all-zero pattern.
    pub open spec fn spec_zero() -> Scalar {
        Scalar { bits: 0 }
    }

    /// The pattern with the sign bit cleared.
    pub open spec fn magnitude(self) -> int {
        if self.bits >= SIGN_BIT {
            self.bits - SIGN_BIT
        } else {
            self.bits as int
        }
    }

    /// Whether the sign bit is set.
    pub open spec fn is_negative(self) -> bool {
        self.bits >= SIGN_BIT
    }

    /// Whether the pattern is a NaN: exponent all ones, fraction not zero.
    pub open spec fn spec_is_nan(self) -> bool {
        self.magnitude() > INFINITY_MAGNITUDE
    }

    /// An integer that orders the non-NaN patterns as their numbers are
    /// ordered. Binary32 is a sign-and-magnitude format, so the magnitude
    /// with the sign applied grows with the number; both zeros get key 0.
    pub open spec fn order_key(self) -> int {
        if self.is_negative() {
            -self.magnitude()
        } else {
            self.magnitude()
        }
    }

    /// Numeric `<`: false whenever either side is a NaN.
    pub open spec fn spec_lt(self, other: Scalar) -> bool {
        !self.spec_is_nan() && !other.spec_is_nan() && self.order_key() < other.order_key()
    }

    /// Numeric `>`: `other < self`.
    pub open spec fn spec_gt(self, other: Scalar) -> bool {
        other.spec_lt(self)
    }

    /// Wraps a bit pattern.
    pub fn from_bits(bits: u32) -> (s: Scalar)
        ensures
            s.bits == bits,
    {
        Scalar { bits }
    }

    /// The bit pattern.
    pub fn to_bits(self) -> (bits: u32)
        ensures
            bits == self.bits,
    {
        self.bits
    }

    /// Positive zero.
    #[verifier::when_used_as_spec(spec_zero)]
    pub fn zero() -> (s: Scalar)
        ensures
            s == Scalar::spec_zero(),
    {
        Scalar { bits: 0 }
    }

    /// Whether the number is a NaN.
    #[verifier::when_used_as_spec(spec_is_nan)]
    pub fn is_nan(self) -> (r: bool)
        ensures
            r == self.spec_is_nan(),
    {
        if self.bits >= SIGN_BIT {
            self.bits - SIGN_BIT > INFINITY_MAGNITUDE
        } else {
            self.bits > INFINITY_MAGNITUDE
        }
    }

    /// The ordering key as a machine integer.
    pub fn key(self) -> (k: i64)
        ensures
            k == self.order_key(),
    {
        if self.bits >= SIGN_BIT {
            let m: u32 = self.bits - SIGN_BIT;
            -(m as i64)
        } else {
            self.bits as i64
        }
    }

    /// Numeric `<` of the two numbers.
    #[verifier::when_used_as_spec(spec_lt)]
    pub fn lt(self, other: Scalar) -> (r: bool)
        ensures
            r == self.spec_lt(other),
    {
        !self.is_nan() && !other.is_nan() && self.key() < other.key()
    }

    /// Numeric `>` of the two numbers.
    #[verifier::when_used_as_spec(spec_gt)]
    pub fn gt(self, other: Scalar) -> (r: bool)
        ensures
            r == self.spec_gt(other),
    {
        other.lt(self)
    }
}

/// Among the patterns that are not NaN, the key is the number: two patterns
/// with the same key are the same pattern, unless the key is zero, where the
/// two zeros meet.
pub proof fn lemma_key_determines_bits(a: Scalar, b: Scalar)
    requires
        !a.spec_is_nan(),
        !b.spec_is_nan(),
        a.order_key() == b.order_key(),
        a.order_key() != 0,
    ensures
        a == b,
{
}

/// Numeric `<` is a strict order: nothing is below itself, and it is
/// transitive.
pub proof fn lemma_lt_strict_order(a: Scalar, b: Scalar, c: Scalar)
    ensures
        !a.spec_lt(a),
        a.spec_lt(b) && b.spec_lt(c) ==> a.spec_lt(c),
        a.spec_lt(b) ==> !b.spec_lt(a),
{
}

/// Two numbers that are not NaN are comparable: one is below the other or
/// they are numerically equal.
pub proof fn lemma_lt_total(a: Scalar, b: Scalar)
    requires
        !a.spec_is_nan(),
        !b.spec_is_nan(),
    ensures
        a.spec_lt(b) || b.spec_lt(a) || a.order_key() == b.order_key(),
{
}

} // verus!
