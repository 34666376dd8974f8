//! Binary64 values carried as their bit patterns, with the order and the
//! sign operations that are exact on the representation.

use vstd::prelude::*;

verus! {

/// The sign bit of a binary64 bit pattern.
pub const SIGN_BIT: u64 = 0x8000_0000_0000_0000;

/// Magnitude bits of positive infinity; every larger magnitude is a NaN.
pub const INFINITY_BITS: u64 = 0x7ff0_0000_0000_0000;

/// Bit pattern of the number one.
pub const ONE_BITS: u64 = 0x3ff0_0000_0000_0000;

/// An IEEE 754 binary64 value, held as its 64 bits.
///
/// `==` on two scalars compares the bits. That is finer than the equality of
/// IEEE 754: the two zeros differ, and a NaN equals itself.
#[derive(Clone, Copy, Debug, PartialEq, Eq, Structural)]
pub struct Scalar {
    pub bits: u64,
}

impl Scalar {
    /// Whether the sign bit is set.
    pub open spec fn sign(self) -> bool {
        self.bits >= SIGN_BIT
    }

    /// The bits without the sign bit.
    pub open spec fn magnitude(self) -> u64 {
        if self.bits >= SIGN_BIT {
            (self.bits - SIGN_BIT) as u64
        } else {
            self.bits
        }
    }

    /// Whether the pattern encodes a NaN.
    pub open spec fn is_nan(self) -> bool {
        self.magnitude() > INFINITY_BITS
    }

    /// Position of a non-NaN value on the number line: an integer that grows
    /// exactly as the encoded value does. Both zeros have rank 0.
    pub open spec fn rank(self) -> int {
        if self.sign() {
            -(self.magnitude() as int)
        } else {
            self.magnitude() as int
        }
    }

    /// The comparison `self < other` of IEEE 754: false when either side is
    /// a NaN, otherwise the order of the encoded values.
    pub open spec fn lt(self, other: Scalar) -> bool {
        !self.is_nan() && !other.is_nan() && self.rank() < other.rank()
    }

    /// The value with the opposite sign, NaN payloads included.
    pub open spec fn negated(self) -> Scalar {
        if self.bits >= SIGN_BIT {
            Scalar { bits: (self.bits - SIGN_BIT) as u64 }
        } else {
            Scalar { bits: (self.bits + SIGN_BIT) as u64 }
        }
    }

    /// Positive zero.
    pub open spec fn spec_zero() -> Scalar {
        Scalar { bits: 0 }
    }

    /// The number one.
    pub open spec fn spec_one() -> Scalar {
        Scalar { bits: ONE_BITS }
    }

    /// Positive infinity.
    pub open spec fn spec_infinity() -> Scalar {
        Scalar { bits: INFINITY_BITS }
    }

    /// Wraps a bit pattern.
    pub fn from_bits(bits: u64) -> (s: Scalar)
        ensures
            s.bits == bits,
    {
        Scalar { bits }
    }

    /// The bit pattern.
    pub fn to_bits(self) -> (bits: u64)
        ensures
            bits == self.bits,
    {
        self.bits
    }

    /// Positive zero.
    #[verifier::when_used_as_spec(spec_zero)]
    pub fn zero() -> (s: Scalar)
        ensures
            s == Scalar::spec_zero(),
    {
        Scalar { bits: 0 }
    }

    /// The number one.
    #[verifier::when_used_as_spec(spec_one)]
    pub fn one() -> (s: Scalar)
        ensures
            s == Scalar::spec_one(),
    {
        Scalar { bits: ONE_BITS }
    }

    /// Positive infinity.
    #[verifier::when_used_as_spec(spec_infinity)]
    pub fn infinity() -> (s: Scalar)
        ensures
            s == Scalar::spec_infinity(),
    {
        Scalar { bits: INFINITY_BITS }
    }

    /// Tests for NaN.
    pub fn nan(self) -> (r: bool)
        ensures
            r == self.is_nan(),
    {
        let m: u64 = if self.bits >= SIGN_BIT {
            self.bits - SIGN_BIT
        } else {
            self.bits
        };
        m > INFINITY_BITS
    }

    /// Decides `self < other` as IEEE 754 orders the two values.
    pub fn less(self, other: Scalar) -> (r: bool)
        ensures
            r == self.lt(other),
    {
        if self.nan() || other.nan() {
            return false;
        }
        let a_neg: bool = self.bits >= SIGN_BIT;
        let b_neg: bool = other.bits >= SIGN_BIT;
        if a_neg {
            if b_neg {
                self.bits > other.bits
            } else {
                self.bits > SIGN_BIT || other.bits > 0
            }
        } else {
            if b_neg {
                false
            } else {
                self.bits < other.bits
            }
        }
    }

    /// Flips the sign.
    pub fn neg(self) -> (r: Scalar)
        ensures
            r == self.negated(),
    {
        if self.bits >= SIGN_BIT {
            Scalar { bits: self.bits - SIGN_BIT }
        } else {
            Scalar { bits: self.bits + SIGN_BIT }
        }
    }
}

/// The strict order has no cycles of length one or two.
pub proof fn lemma_lt_asymmetric(a: Scalar, b: Scalar)
    ensures
        !a.lt(a),
        a.lt(b) ==> !b.lt(a),
{
}

/// The strict order is transitive.
pub proof fn lemma_lt_transitive(a: Scalar, b: Scalar, c: Scalar)
    requires
        a.lt(b),
        b.lt(c),
    ensures
        a.lt(c),
{
}

/// Two values that are not NaN are ordered one way or the other, or sit at
/// the same place on the number line.
pub proof fn lemma_lt_total(a: Scalar, b: Scalar)
    requires
        !a.is_nan(),
        !b.is_nan(),
    ensures
        a.lt(b) || b.lt(a) || a.rank() == b.rank(),
{
}

/// Negation mirrors the number line and so reverses the order; doing it
/// twice gives the value back.
pub proof fn lemma_negation_mirrors(a: Scalar, b: Scalar)
    ensures
        a.negated().negated() == a,
        a.negated().is_nan() == a.is_nan(),
        !a.is_nan() ==> a.negated().rank() == -a.rank(),
        a.negated().lt(b.negated()) == b.lt(a),
{
}

} // verus!
