//! Single-precision measurements as bit patterns, and how they compare.

use vstd::prelude::*;

verus! {

const SIGN: u32 = 0x8000_0000;

const INFINITY: u32 = 0x7F80_0000;

/// A measurement in IEEE 754 single precision, held by its bit pattern.
#[derive(Debug, Clone, Copy, PartialEq, Eq, Structural)]
pub struct Measure {
    pub bits: u32,
}

impl Measure {
    /// The measurement with a given bit pattern.
    pub open spec fn of(bits: u32) -> Self {
        Measure { bits }
    }

    /// The bit pattern without its sign.
    pub open spec fn magnitude(self) -> int {
        if self.bits >= 0x8000_0000 {
            self.bits - 0x8000_0000
        } else {
            self.bits as int
        }
    }

    /// The pattern stands for no number.
    pub open spec fn spec_is_nan(self) -> bool {
        self.magnitude() > 0x7F80_0000
    }

    /// The pattern stands for a number that is not infinite.
    pub open spec fn spec_is_finite(self) -> bool {
        self.magnitude() < 0x7F80_0000
    }

    /// The place of the number among all: both zeros stand at zero.
    pub open spec fn place(self) -> int {
        if self.bits >= 0x8000_0000 {
            -self.magnitude()
        } else {
            self.magnitude()
        }
    }

    /// The number is at least the other. Nothing compares with what is no number.
    pub open spec fn spec_at_least(self, other: Self) -> bool {
        !self.spec_is_nan() && !other.spec_is_nan() && self.place() >= other.place()
    }

    /// The number is greater than the other.
    pub open spec fn spec_exceeds(self, other: Self) -> bool {
        !self.spec_is_nan() && !other.spec_is_nan() && self.place() > other.place()
    }

    /// The measurement with a given bit pattern.
    #[must_use]
    pub fn from_bits(bits: u32) -> (measure: Self)
        ensures
            measure == Self::of(bits),
    {
        Measure { bits }
    }

    #[must_use]
    pub fn is_nan(self) -> (nan: bool)
        ensures
            nan == self.spec_is_nan(),
    {
        self.bits % SIGN > INFINITY
    }

    #[must_use]
    pub fn is_finite(self) -> (finite: bool)
        ensures
            finite == self.spec_is_finite(),
    {
        self.bits % SIGN < INFINITY
    }

    /// Whether the number is at least the other.
    #[must_use]
    pub fn at_least(self, other: Self) -> (reached: bool)
        ensures
            reached == self.spec_at_least(other),
    {
        if self.is_nan() || other.is_nan() {
            return false;
        }
        let mine: u32 = self.bits % SIGN;
        let theirs: u32 = other.bits % SIGN;
        if self.bits < SIGN {
            if other.bits < SIGN {
                mine >= theirs
            } else {
                true
            }
        } else if other.bits < SIGN {
            mine == 0 && theirs == 0
        } else {
            mine <= theirs
        }
    }

    /// Whether the number is greater than the other.
    #[must_use]
    pub fn exceeds(self, other: Self) -> (exceeded: bool)
        ensures
            exceeded == self.spec_exceeds(other),
    {
        !self.is_nan() && !other.is_nan() && !other.at_least(self)
    }
}

/// Measurements compare as the numbers that they stand for: those without a sign by their
/// patterns, those with one the other way round, any without a sign above any with one, and both
/// zeros alike. What is no number compares with nothing.
pub proof fn law_measures_are_ordered(a: Measure, b: Measure)
    ensures
        a.spec_is_nan() <==> 0x7F80_0000 < a.bits < 0x8000_0000 || a.bits > 0xFF80_0000,
        a.spec_is_finite() <==> a.bits < 0x7F80_0000 || 0x8000_0000 <= a.bits < 0xFF80_0000,
        a.spec_is_nan() || b.spec_is_nan() ==> !a.spec_at_least(b) && !a.spec_exceeds(b),
        a.bits <= 0x7F80_0000 && b.bits <= 0x7F80_0000 ==> {
            &&& a.spec_at_least(b) <==> a.bits >= b.bits
            &&& a.spec_exceeds(b) <==> a.bits > b.bits
        },
        0x8000_0000 <= a.bits <= 0xFF80_0000 && 0x8000_0000 <= b.bits <= 0xFF80_0000 ==> {
            &&& a.spec_at_least(b) <==> a.bits <= b.bits
            &&& a.spec_exceeds(b) <==> a.bits < b.bits
        },
        a.bits <= 0x7F80_0000 && 0x8000_0000 <= b.bits <= 0xFF80_0000 ==> {
            &&& a.spec_at_least(b)
            &&& a.spec_exceeds(b) <==> !(a.bits == 0 && b.bits == 0x8000_0000)
            &&& b.spec_at_least(a) <==> a.bits == 0 && b.bits == 0x8000_0000
            &&& !b.spec_exceeds(a)
        },
{
}

} // verus!
