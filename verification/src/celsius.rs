//! Temperatures as binary64 bit patterns, compared as the numbers they encode.

use vstd::prelude::*;

verus! {

/// A temperature in degrees Celsius, held as the bits of an IEEE 754 binary64 number.
#[derive(Clone, Copy, Debug, PartialEq, Eq, Structural)]
pub struct Celsius {
    /// The bit pattern.
    pub bits: u64,
}

/// The sign bit of a pattern.
pub const SIGN_BIT: u64 = 0x8000_0000_0000_0000;

/// The pattern of positive infinity.
pub const INFINITY_BITS: u64 = 0x7ff0_0000_0000_0000;

/// The lowest plausible temperature, -50 degrees, without its sign.
pub const MINUS_FIFTY_MAGNITUDE: u64 = 0x4049_0000_0000_0000;

/// The highest plausible temperature, 150 degrees.
pub const PLUS_150_BITS: u64 = 0x4062_c000_0000_0000;

/// The magnitude of a pattern, which orders non-negative numbers as they are.
pub open spec fn magnitude(bits: u64) -> int {
    if bits < SIGN_BIT {
        bits as int
    } else {
        bits - SIGN_BIT
    }
}

/// A key that orders all numbers as they are; both zeros have the key zero.
pub open spec fn rank(bits: u64) -> int {
    if bits < SIGN_BIT {
        bits as int
    } else {
        -(bits - SIGN_BIT)
    }
}

impl Celsius {
    /// Whether the pattern is no number at all.
    pub open spec fn nan(self) -> bool {
        magnitude(self.bits) > INFINITY_BITS
    }

    /// Whether the pattern is neither infinite nor no number at all.
    pub open spec fn finite(self) -> bool {
        magnitude(self.bits) < INFINITY_BITS
    }

    /// Whether this temperature is lower than another; false of what is no number.
    pub open spec fn lower(self, other: Celsius) -> bool {
        !self.nan() && !other.nan() && rank(self.bits) < rank(other.bits)
    }

    /// Whether this temperature is at most another; false of what is no number.
    pub open spec fn at_most(self, other: Celsius) -> bool {
        !self.nan() && !other.nan() && rank(self.bits) <= rank(other.bits)
    }

    /// Whether this temperature lies from -50 through 150 degrees.
    pub open spec fn plausible(self) -> bool {
        -MINUS_FIFTY_MAGNITUDE <= rank(self.bits) <= PLUS_150_BITS
    }

    /// Whether the pattern is no number at all.
    pub fn is_nan(&self) -> (result: bool)
        ensures
            result == self.nan(),
    {
        if self.bits < SIGN_BIT {
            self.bits > INFINITY_BITS
        } else {
            self.bits - SIGN_BIT > INFINITY_BITS
        }
    }

    /// Whether the pattern is neither infinite nor no number at all.
    pub fn is_finite(&self) -> (result: bool)
        ensures
            result == self.finite(),
    {
        if self.bits < SIGN_BIT {
            self.bits < INFINITY_BITS
        } else {
            self.bits - SIGN_BIT < INFINITY_BITS
        }
    }

    fn rank_at_most(&self, other: &Celsius) -> (result: bool)
        ensures
            result == (rank(self.bits) <= rank(other.bits)),
    {
        if self.bits < SIGN_BIT {
            if other.bits < SIGN_BIT {
                self.bits <= other.bits
            } else {
                self.bits == 0 && other.bits == SIGN_BIT
            }
        } else if other.bits < SIGN_BIT {
            true
        } else {
            other.bits <= self.bits
        }
    }

    /// Whether this temperature is at most another.
    pub fn is_at_most(&self, other: &Celsius) -> (result: bool)
        ensures
            result == self.at_most(*other),
    {
        !self.is_nan() && !other.is_nan() && self.rank_at_most(other)
    }

    /// Whether this temperature is lower than another.
    pub fn is_lower(&self, other: &Celsius) -> (result: bool)
        ensures
            result == self.lower(*other),
    {
        !self.is_nan() && !other.is_nan() && !other.rank_at_most(self)
    }

    /// Whether this temperature is finite and lies from -50 through 150 degrees.
    pub fn is_plausible(&self) -> (result: bool)
        ensures
            result == self.plausible(),
            result ==> self.finite(),
    {
        let low = Celsius { bits: SIGN_BIT + MINUS_FIFTY_MAGNITUDE };
        let high = Celsius { bits: PLUS_150_BITS };
        low.rank_at_most(self) && self.rank_at_most(&high)
    }
}

/// Temperatures are ordered as numbers: those with the sign bit are below zero and the larger
/// their other bits the lower, the others are not below zero and the larger their bits the
/// higher, and both zeros are the same. What is not a number is neither lower nor at most
/// anything.
pub proof fn law_temperatures_are_ordered_as_numbers(left: Celsius, right: Celsius)
    ensures
        left.bits <= 0x7ff0_0000_0000_0000 && right.bits <= 0x7ff0_0000_0000_0000 ==> (left.lower(
            right,
        ) <==> left.bits < right.bits),
        0x8000_0000_0000_0000 <= left.bits <= 0xfff0_0000_0000_0000 && 0x8000_0000_0000_0000
            <= right.bits <= 0xfff0_0000_0000_0000 ==> (left.lower(right) <==> left.bits
            > right.bits),
        0x8000_0000_0000_0000 < left.bits <= 0xfff0_0000_0000_0000 && right.bits
            <= 0x7ff0_0000_0000_0000 ==> left.lower(right) && !right.lower(left),
        left.bits == 0x8000_0000_0000_0000 && right.bits == 0 ==> !left.lower(right)
            && !right.lower(left) && left.at_most(right) && right.at_most(left),
        0x7ff0_0000_0000_0000 < left.bits < 0x8000_0000_0000_0000 || left.bits
            > 0xfff0_0000_0000_0000 ==> !left.lower(right) && !right.lower(left) && !left.at_most(
            right,
        ) && !right.at_most(left) && !left.finite() && !left.plausible(),
        left.finite() && right.finite() ==> (left.at_most(right) <==> !right.lower(left)),
        left.finite() <==> left.bits < 0x7ff0_0000_0000_0000 || 0x8000_0000_0000_0000 <= left.bits
            < 0xfff0_0000_0000_0000,
{
}

} // verus!
