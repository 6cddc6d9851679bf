//! IEEE 754 single-precision values carried by their bit pattern.
//!
//! The simulator's physical quantities (time constants, amplitudes, screen
//! coordinates) are single-precision numbers. This crate never rounds: it
//! only stores, classifies and orders them, which is exact integer work on
//! the 32-bit encoding. Arithmetic on the values is left to the caller.

use vstd::prelude::*;

verus! {

/// The sign bit of the encoding.
pub const SIGN_BIT: u32 = 0x8000_0000;

/// The encoding of positive infinity; every larger magnitude is a NaN.
pub const INFINITY_BITS: u32 = 0x7f80_0000;

/// The encoding of `+0.0`.
pub const ZERO_BITS: u32 = 0;

/// The encoding of `1.0`.
pub const ONE_BITS: u32 = 0x3f80_0000;

/// A single-precision value, held as the 32 bits of its encoding.
///
/// `==` on this type compares encodings: `+0.0` and `-0.0` differ, and a NaN
/// equals itself. Numeric comparison is [`Binary32::lt`] and its siblings.
#[derive(Clone, Copy, Debug, PartialEq, Eq, Structural)]
pub struct Binary32 {
    pub bits: u32,
}

impl Default for Binary32 {
    /// `+0.0`.
    fn default() -> (r: Self)
        ensures
            r.bits == 0,
    {
        Binary32 { bits: 0 }
    }
}

impl Binary32 {
    /// The encoding with its sign bit cleared.
    pub open spec fn magnitude(self) -> int {
        if self.bits >= SIGN_BIT {
            self.bits - SIGN_BIT
        } else {
            self.bits as int
        }
    }

    /// Whether the value is not a number.
    pub open spec fn is_nan(self) -> bool {
        self.magnitude() > INFINITY_BITS
    }

    /// Whether the sign bit is set.
    pub open spec fn sign_negative(self) -> bool {
        self.bits >= SIGN_BIT
    }

    /// An integer that orders the non-NaN values as the numbers they encode:
    /// sign-magnitude read as a signed integer, so both zeros map to 0.
    pub open spec fn order_key(self) -> int {
        if self.sign_negative() {
            -self.magnitude()
        } else {
            self.magnitude()
        }
    }

    /// Numeric `<`: false whenever either side is a NaN.
    pub open spec fn lt_spec(self, other: Binary32) -> bool {
        !self.is_nan() && !other.is_nan() && self.order_key() < other.order_key()
    }

    /// Numeric `<=`: false whenever either side is a NaN.
    pub open spec fn le_spec(self, other: Binary32) -> bool {
        !self.is_nan() && !other.is_nan() && self.order_key() <= other.order_key()
    }

    /// Numeric `>`.
    pub open spec fn gt_spec(self, other: Binary32) -> bool {
        other.lt_spec(self)
    }

    /// Numeric `>=`.
    pub open spec fn ge_spec(self, other: Binary32) -> bool {
        other.le_spec(self)
    }

    /// Whether the value is `+0.0` or `-0.0`.
    pub open spec fn is_zero_spec(self) -> bool {
        self.magnitude() == 0
    }

    /// Wraps an encoding.
    pub fn from_bits(bits: u32) -> (r: Binary32)
        ensures
            r.bits == bits,
    {
        Binary32 { bits }
    }

    /// The encoding.
    pub fn to_bits(self) -> (r: u32)
        ensures
            r == self.bits,
    {
        self.bits
    }

    /// `+0.0`.
    pub fn zero() -> (r: Binary32)
        ensures
            r.bits == ZERO_BITS,
            r.is_zero_spec(),
            !r.is_nan(),
    {
        Binary32 { bits: ZERO_BITS }
    }

    /// `1.0`.
    pub fn one() -> (r: Binary32)
        ensures
            r.bits == ONE_BITS,
            !r.is_nan(),
            r.order_key() > 0,
    {
        Binary32 { bits: ONE_BITS }
    }

    fn magnitude_bits(self) -> (m: u32)
        ensures
            m == self.magnitude(),
            m < SIGN_BIT,
    {
        if self.bits >= SIGN_BIT {
            self.bits - SIGN_BIT
        } else {
            self.bits
        }
    }

    fn key(self) -> (k: i64)
        ensures
            k == self.order_key(),
    {
        let m: u32 = self.magnitude_bits();
        let wide: i64 = m as i64;
        if self.bits >= SIGN_BIT {
            -wide
        } else {
            wide
        }
    }

    #[verifier::when_used_as_spec(is_nan)]
    pub fn check_nan(self) -> (r: bool)
        ensures
            r == self.is_nan(),
    {
        self.magnitude_bits() > INFINITY_BITS
    }

    #[verifier::when_used_as_spec(is_zero_spec)]
    pub fn is_zero(self) -> (r: bool)
        ensures
            r == self.is_zero_spec(),
    {
        self.magnitude_bits() == 0
    }

    #[verifier::when_used_as_spec(lt_spec)]
    pub fn lt(self, other: Binary32) -> (r: bool)
        ensures
            r == self.lt_spec(other),
    {
        !self.check_nan() && !other.check_nan() && self.key() < other.key()
    }

    #[verifier::when_used_as_spec(le_spec)]
    pub fn le(self, other: Binary32) -> (r: bool)
        ensures
            r == self.le_spec(other),
    {
        !self.check_nan() && !other.check_nan() && self.key() <= other.key()
    }

    #[verifier::when_used_as_spec(gt_spec)]
    pub fn gt(self, other: Binary32) -> (r: bool)
        ensures
            r == self.gt_spec(other),
    {
        other.lt(self)
    }

    #[verifier::when_used_as_spec(ge_spec)]
    pub fn ge(self, other: Binary32) -> (r: bool)
        ensures
            r == self.ge_spec(other),
    {
        other.le(self)
    }
}

/// On values that are not NaN the order is total: exactly one of `a < b`,
/// `b < a` and "same number" holds, and `>=` is the negation of `<`.
pub proof fn lemma_order_total(a: Binary32, b: Binary32)
    requires
        !a.is_nan(),
        !b.is_nan(),
    ensures
        a.ge_spec(b) <==> !a.lt_spec(b),
        a.le_spec(b) <==> !a.gt_spec(b),
        a.lt_spec(b) ==> !b.lt_spec(a),
        a.le_spec(b) && b.le_spec(a) <==> a.order_key() == b.order_key(),
{
}

/// `<` is transitive, NaNs included.
pub proof fn lemma_lt_transitive(a: Binary32, b: Binary32, c: Binary32)
    requires
        a.lt_spec(b),
        b.lt_spec(c),
    ensures
        a.lt_spec(c),
{
}

/// A NaN compares false with everything, itself included.
pub proof fn lemma_nan_unordered(a: Binary32, b: Binary32)
    requires
        a.is_nan() || b.is_nan(),
    ensures
        !a.lt_spec(b),
        !a.le_spec(b),
        !a.gt_spec(b),
        !a.ge_spec(b),
{
}

} // verus!
