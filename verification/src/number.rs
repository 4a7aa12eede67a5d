//! JSON numbers as IEEE 754 binary64 values, held by their bit pattern.
//!
//! A binary64 value is one sign bit, eleven exponent bits and fifty-two
//! fraction bits. Read as a sign and a 63-bit magnitude, the bit patterns of
//! the values that are not NaN are ordered exactly as the values themselves,
//! with the two zeros equal. All comparisons here are stated over that reading.

use vstd::prelude::*;

verus! {

/// Two to the power 63: the weight of the sign bit.
pub const SIGN_BIT: u64 = 0x8000_0000_0000_0000;

/// The magnitude of both infinities; every larger magnitude is a NaN.
pub const INFINITY_MAGNITUDE: u64 = 0x7ff0_0000_0000_0000;

/// A JSON number: the bit pattern of a binary64 value.
#[derive(Clone, Copy, Debug)]
pub struct Number {
    bits: u64,
}

impl View for Number {
    type V = u64;

    closed spec fn view(&self) -> u64 {
        self.bits
    }
}

/// The 63 bits below the sign bit.
pub open spec fn magnitude(bits: u64) -> int {
    bits as int % (SIGN_BIT as int)
}

/// Whether the sign bit is set.
pub open spec fn is_negative(bits: u64) -> bool {
    bits >= SIGN_BIT
}

/// Whether the bit pattern is a NaN: all exponent bits set and a fraction
/// that is not zero.
pub open spec fn is_nan(bits: u64) -> bool {
    magnitude(bits) > INFINITY_MAGNITUDE as int
}

/// Whether the bit pattern is neither a NaN nor an infinity.
pub open spec fn is_finite(bits: u64) -> bool {
    magnitude(bits) < INFINITY_MAGNITUDE as int
}

/// The position of a bit pattern on the number line of patterns: the
/// magnitude, negated when the sign bit is set. Both zeros sit at 0.
pub open spec fn order_key(bits: u64) -> int {
    if is_negative(bits) {
        -magnitude(bits)
    } else {
        magnitude(bits)
    }
}

/// `a <= b` as binary64 values: false when either is a NaN.
pub open spec fn float_le(a: u64, b: u64) -> bool {
    !is_nan(a) && !is_nan(b) && order_key(a) <= order_key(b)
}

/// `a < b` as binary64 values: false when either is a NaN.
pub open spec fn float_lt(a: u64, b: u64) -> bool {
    !is_nan(a) && !is_nan(b) && order_key(a) < order_key(b)
}

/// `a == b` as binary64 values: false when either is a NaN, true of the two
/// zeros.
pub open spec fn float_eq(a: u64, b: u64) -> bool {
    !is_nan(a) && !is_nan(b) && order_key(a) == order_key(b)
}

impl Number {
    /// The number with the given binary64 bit pattern.
    pub fn from_bits(bits: u64) -> (n: Number)
        ensures
            n@ == bits,
    {
        Number { bits }
    }

    /// The binary64 bit pattern of this number.
    pub fn to_bits(&self) -> (bits: u64)
        ensures
            bits == self@,
    {
        self.bits
    }

    /// Whether this number is a NaN.
    pub fn is_nan(&self) -> (r: bool)
        ensures
            r == is_nan(self@),
    {
        self.bits % SIGN_BIT > INFINITY_MAGNITUDE
    }

    /// Whether this number is neither a NaN nor an infinity.
    pub fn is_finite(&self) -> (r: bool)
        ensures
            r == is_finite(self@),
    {
        self.bits % SIGN_BIT < INFINITY_MAGNITUDE
    }

    /// Whether `self == other` as binary64 values.
    pub fn equals(&self, other: &Number) -> (r: bool)
        ensures
            r == float_eq(self@, other@),
    {
        if self.is_nan() || other.is_nan() {
            return false;
        }
        let a: u64 = self.bits % SIGN_BIT;
        let b: u64 = other.bits % SIGN_BIT;
        if (self.bits >= SIGN_BIT) == (other.bits >= SIGN_BIT) {
            a == b
        } else {
            a == 0 && b == 0
        }
    }

    /// Whether `self <= other` as binary64 values.
    pub fn le(&self, other: &Number) -> (r: bool)
        ensures
            r == float_le(self@, other@),
    {
        if self.is_nan() || other.is_nan() {
            return false;
        }
        let a: u64 = self.bits % SIGN_BIT;
        let b: u64 = other.bits % SIGN_BIT;
        if self.bits >= SIGN_BIT {
            if other.bits >= SIGN_BIT {
                b <= a
            } else {
                true
            }
        } else {
            if other.bits >= SIGN_BIT {
                a == 0 && b == 0
            } else {
                a <= b
            }
        }
    }

    /// Whether `self < other` as binary64 values.
    pub fn lt(&self, other: &Number) -> (r: bool)
        ensures
            r == float_lt(self@, other@),
    {
        if self.is_nan() || other.is_nan() {
            return false;
        }
        let a: u64 = self.bits % SIGN_BIT;
        let b: u64 = other.bits % SIGN_BIT;
        if self.bits >= SIGN_BIT {
            if other.bits >= SIGN_BIT {
                b < a
            } else {
                a != 0 || b != 0
            }
        } else {
            if other.bits >= SIGN_BIT {
                false
            } else {
                a < b
            }
        }
    }
}

} // verus!
