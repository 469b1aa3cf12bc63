//! IEEE 754 binary64 values as bit patterns.
//!
//! The library never computes with hardware floating point. A value is carried
//! as the 64 bits that encode it, and the operations defined here read and
//! write those bits: classification, sign handling and ordering.

use vstd::prelude::*;

verus! {

/// The pattern in which only the sign bit is set.
pub const SIGN_BIT: u64 = 0x8000_0000_0000_0000;

/// Every bit but the sign bit.
pub const MAGNITUDE_MASK: u64 = 0x7FFF_FFFF_FFFF_FFFF;

/// Magnitude bits of an infinity: exponent field all ones, fraction zero.
pub const INFINITY_BITS: u64 = 0x7FF0_0000_0000_0000;

/// Magnitude bits of the value one.
pub const ONE_BITS: u64 = 0x3FF0_0000_0000_0000;

/// An IEEE 754 binary64 value, held as its bit pattern.
#[derive(Clone, Copy, Debug)]
pub struct Binary64 {
    pub bits: u64,
}

/// Clearing the sign bit with the mask is subtracting it where it is set.
proof fn lemma_mask_clears_sign(bits: u64)
    by (bit_vector)
    ensures
        bits & 0x7FFF_FFFF_FFFF_FFFF == (if bits >= 0x8000_0000_0000_0000 {
            (bits - 0x8000_0000_0000_0000) as u64
        } else {
            bits
        }),
        bits & 0x8000_0000_0000_0000 == (if bits >= 0x8000_0000_0000_0000 {
            0x8000_0000_0000_0000u64
        } else {
            0u64
        }),
{
}

/// A magnitude and a sign bit, joined with bitwise or, add up.
proof fn lemma_join(magnitude: u64, sign: u64)
    by (bit_vector)
    requires
        magnitude < 0x8000_0000_0000_0000,
        sign == 0 || sign == 0x8000_0000_0000_0000,
    ensures
        magnitude | sign == magnitude + sign,
{
}

impl Binary64 {
    /// The sign bit is set. This holds of negative zero and of some NaNs too.
    pub open spec fn negative(self) -> bool {
        self.bits >= SIGN_BIT
    }

    /// The pattern with its sign bit cleared.
    pub open spec fn magnitude_bits(self) -> u64 {
        if self.negative() {
            (self.bits - SIGN_BIT) as u64
        } else {
            self.bits
        }
    }

    /// Not a number: exponent field all ones and a fraction that is not zero.
    pub open spec fn nan(self) -> bool {
        self.magnitude_bits() > INFINITY_BITS
    }

    /// Positive or negative infinity.
    pub open spec fn infinite(self) -> bool {
        self.magnitude_bits() == INFINITY_BITS
    }

    /// Zero, subnormal or normal.
    pub open spec fn finite(self) -> bool {
        self.magnitude_bits() < INFINITY_BITS
    }

    /// Position of a value that is not NaN on the number line, as an integer:
    /// the magnitude bits grow with the magnitude they encode, so the signed
    /// magnitude bits order the values. Both zeros have rank zero.
    pub open spec fn rank(self) -> int {
        if self.negative() {
            -(self.magnitude_bits() as int)
        } else {
            self.magnitude_bits() as int
        }
    }

    /// The IEEE 754 relation `<`: false when either side is NaN.
    pub open spec fn less_than(self, other: Binary64) -> bool {
        !self.nan() && !other.nan() && self.rank() < other.rank()
    }

    /// The value that `bits` encodes.
    pub open spec fn encoded(bits: u64) -> Binary64 {
        Binary64 { bits }
    }

    /// One for a true flag, zero for a false one.
    pub open spec fn indicator(flag: bool) -> Binary64 {
        if flag {
            Binary64::encoded(ONE_BITS)
        } else {
            Binary64::encoded(0)
        }
    }

    /// The magnitude of `self` under the sign of `sign`.
    pub open spec fn with_sign_of(self, sign: Binary64) -> Binary64 {
        Binary64 {
            bits: (self.magnitude_bits() + if sign.negative() {
                SIGN_BIT
            } else {
                0
            }) as u64,
        }
    }

    #[verifier::when_used_as_spec(encoded)]
    pub fn from_bits(bits: u64) -> (value: Binary64)
        ensures
            value == Binary64::encoded(bits),
    {
        Binary64 { bits }
    }

    pub fn to_bits(self) -> (bits: u64)
        ensures
            bits == self.bits,
    {
        self.bits
    }

    /// The pattern with its sign bit cleared.
    pub fn magnitude_field(self) -> (magnitude: u64)
        ensures
            magnitude == self.magnitude_bits(),
    {
        proof {
            lemma_mask_clears_sign(self.bits);
        }
        self.bits & MAGNITUDE_MASK
    }

    pub fn is_nan(self) -> (answer: bool)
        ensures
            answer == self.nan(),
    {
        self.magnitude_field() > INFINITY_BITS
    }

    pub fn is_infinite(self) -> (answer: bool)
        ensures
            answer == self.infinite(),
    {
        self.magnitude_field() == INFINITY_BITS
    }

    pub fn is_sign_negative(self) -> (answer: bool)
        ensures
            answer == self.negative(),
    {
        self.bits >= SIGN_BIT
    }

    /// The value with its sign bit cleared. A NaN stays a NaN.
    pub fn abs(self) -> (value: Binary64)
        ensures
            value.bits == self.magnitude_bits(),
    {
        Binary64 { bits: self.magnitude_field() }
    }

    /// The magnitude of `self` with the sign bit of `sign`, whatever the two
    /// encode.
    pub fn copysign(self, sign: Binary64) -> (value: Binary64)
        ensures
            value == self.with_sign_of(sign),
            value.magnitude_bits() == self.magnitude_bits(),
            value.negative() == sign.negative(),
    {
        let magnitude = self.magnitude_field();
        let sign_bit = sign.bits & SIGN_BIT;
        proof {
            lemma_mask_clears_sign(sign.bits);
            lemma_join(magnitude, sign_bit);
        }
        Binary64 { bits: magnitude | sign_bit }
    }

    /// `self < other` as IEEE 754 orders the two.
    pub fn lt(self, other: Binary64) -> (answer: bool)
        ensures
            answer == self.less_than(other),
    {
        if self.is_nan() || other.is_nan() {
            return false;
        }
        let left = self.magnitude_field();
        let right = other.magnitude_field();
        if self.is_sign_negative() {
            if other.is_sign_negative() {
                right < left
            } else {
                left != 0 || right != 0
            }
        } else {
            !other.is_sign_negative() && left < right
        }
    }

    /// `self > other` as IEEE 754 orders the two.
    pub fn gt(self, other: Binary64) -> (answer: bool)
        ensures
            answer == other.less_than(self),
    {
        other.lt(self)
    }

    /// One for a true flag, zero for a false one.
    pub fn indicate(flag: bool) -> (value: Binary64)
        ensures
            value == Binary64::indicator(flag),
    {
        if flag {
            Binary64::from_bits(ONE_BITS)
        } else {
            Binary64::from_bits(0)
        }
    }
}

} // verus!
