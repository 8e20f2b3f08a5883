//! Stroke samples as IEEE-754 binary32 bit patterns.
//!
//! Every sample of a stroke (position, speed, direction, width, pressure) is
//! kept exactly as the four bytes found in the stream. Ordering is defined on
//! the bit pattern, so that it can be stated and proved with integers alone.

use vstd::prelude::*;

verus! {

/// Bit pattern of positive infinity.
pub const POSITIVE_INFINITY_BITS: u32 = 0x7f80_0000;

/// Bit pattern of negative infinity.
pub const NEGATIVE_INFINITY_BITS: u32 = 0xff80_0000;

/// The sign bit of a binary32 pattern.
pub const SIGN_BIT: u32 = 0x8000_0000;

/// A binary32 value held as its bit pattern.
#[derive(Clone, Copy, Debug, PartialEq, Eq, Structural)]
pub struct Real32 {
    pub bits: u32,
}

impl Real32 {
    /// The pattern with the sign bit cleared.
    pub open spec fn magnitude(self) -> int {
        if self.bits >= SIGN_BIT {
            self.bits - SIGN_BIT
        } else {
            self.bits as int
        }
    }

    /// Whether the pattern encodes a NaN: all exponent bits set and a
    /// non-zero fraction.
    pub open spec fn is_nan(self) -> bool {
        self.magnitude() > POSITIVE_INFINITY_BITS
    }

    /// Position of a non-NaN pattern on the number line: patterns with the
    /// sign bit set count downwards from zero, so both zeros share rank 0.
    pub open spec fn rank(self) -> int {
        if self.bits >= SIGN_BIT {
            -self.magnitude()
        } else {
            self.magnitude()
        }
    }

    /// Numeric less-than: false whenever either side is a NaN.
    pub open spec fn less_than(self, other: Real32) -> bool {
        !self.is_nan() && !other.is_nan() && self.rank() < other.rank()
    }

    /// The smaller of the two, keeping `self` unless `other` is strictly
    /// less; a NaN `other` is therefore ignored.
    pub open spec fn lower(self, other: Real32) -> Real32 {
        if other.less_than(self) {
            other
        } else {
            self
        }
    }

    /// The larger of the two, keeping `self` unless it is strictly less
    /// than `other`; a NaN `other` is therefore ignored.
    pub open spec fn upper(self, other: Real32) -> Real32 {
        if self.less_than(other) {
            other
        } else {
            self
        }
    }

    /// The value with the pattern `bits`.
    pub fn from_bits(bits: u32) -> (r: Real32)
        ensures
            r.bits == bits,
    {
        Real32 { bits }
    }

    /// The pattern of the value.
    pub fn to_bits(self) -> (bits: u32)
        ensures
            bits == self.bits,
    {
        self.bits
    }

    /// The pattern with the sign bit cleared.
    fn abs_bits(self) -> (m: u32)
        ensures
            m == self.magnitude(),
    {
        if self.bits >= SIGN_BIT {
            self.bits - SIGN_BIT
        } else {
            self.bits
        }
    }

    /// Whether the value is a NaN.
    pub fn nan(self) -> (b: bool)
        ensures
            b == self.is_nan(),
    {
        self.abs_bits() > POSITIVE_INFINITY_BITS
    }

    /// Whether the value is numerically less than `other`. The two zeros
    /// are equal, and nothing is less than or greater than a NaN.
    pub fn lt(self, other: Real32) -> (b: bool)
        ensures
            b == self.less_than(other),
    {
        if self.nan() || other.nan() {
            return false;
        }
        let a: u32 = self.abs_bits();
        let b: u32 = other.abs_bits();
        let a_negative: bool = self.bits >= SIGN_BIT;
        let b_negative: bool = other.bits >= SIGN_BIT;
        if a_negative {
            if b_negative {
                b < a
            } else {
                a > 0 || b > 0
            }
        } else {
            if b_negative {
                false
            } else {
                a < b
            }
        }
    }

    /// The smaller of the two; `self` where neither is less.
    pub fn min(self, other: Real32) -> (r: Real32)
        ensures
            r == self.lower(other),
    {
        if other.lt(self) {
            other
        } else {
            self
        }
    }

    /// The larger of the two; `self` where neither is less.
    pub fn max(self, other: Real32) -> (r: Real32)
        ensures
            r == self.upper(other),
    {
        if self.lt(other) {
            other
        } else {
            self
        }
    }
}

} // verus!
