//! Double-precision numbers, carried and compared but not computed with.
//!
//! Volatility and momentum are worked out elsewhere in floating point. What the
//! decisions need of such a number is its sign, its size next to another one,
//! and whether it is a number at all; a [`Double`] has these from the bits of the
//! IEEE 754 format.

use vstd::prelude::*;

verus! {

/// The weight of the sign bit.
pub const SIGN: u64 = 0x8000_0000_0000_0000;

/// The bits of positive infinity; any larger magnitude is not a number.
pub const INFINITY: u64 = 0x7ff0_0000_0000_0000;

/// A double-precision number by its bits.
#[derive(Debug, Clone, Copy, PartialEq, Eq, Structural)]
pub struct Double {
    pub bits: u64,
}

impl Double {
    /// The bits without the sign. Among numbers of one sign they are ordered as
    /// the numbers are, away from zero.
    pub open spec fn magnitude(self) -> int {
        if self.bits >= SIGN {
            self.bits - SIGN
        } else {
            self.bits as int
        }
    }

    /// The value is not a number.
    pub open spec fn nan(self) -> bool {
        self.magnitude() > INFINITY
    }

    /// An integer that orders numbers as their values do; zero for both zeros.
    pub open spec fn rank(self) -> int {
        if self.bits >= SIGN {
            -self.magnitude()
        } else {
            self.magnitude()
        }
    }

    /// This number is below `other`. What is not a number is below nothing, and
    /// nothing is below it.
    pub open spec fn below(self, other: Double) -> bool {
        !self.nan() && !other.nan() && self.rank() < other.rank()
    }

    /// The number without its sign.
    pub open spec fn absolute(self) -> Double {
        Double { bits: self.magnitude() as u64 }
    }

    /// Zero.
    pub open spec fn nought() -> Double {
        Double { bits: 0 }
    }

    /// Zero.
    pub fn zero() -> (r: Double)
        ensures
            r == Double::nought(),
    {
        Double { bits: 0 }
    }

    /// The number without its sign.
    pub fn abs(self) -> (r: Double)
        ensures
            r == self.absolute(),
    {
        if self.bits >= SIGN {
            Double { bits: self.bits - SIGN }
        } else {
            self
        }
    }

    /// Whether the value is not a number.
    pub fn is_nan(self) -> (r: bool)
        ensures
            r == self.nan(),
    {
        self.abs().bits > INFINITY
    }

    /// Whether this number is below `other`.
    pub fn less_than(self, other: Double) -> (r: bool)
        ensures
            r == self.below(other),
    {
        if self.is_nan() || other.is_nan() {
            return false;
        }
        let a: u64 = self.abs().bits;
        let b: u64 = other.abs().bits;
        if self.bits >= SIGN {
            if other.bits >= SIGN {
                a > b
            } else {
                a > 0 || b > 0
            }
        } else if other.bits >= SIGN {
            false
        } else {
            a < b
        }
    }

    /// Whether this number is above zero.
    pub fn is_positive(self) -> (r: bool)
        ensures
            r == Double::nought().below(self),
    {
        Double::zero().less_than(self)
    }
}

/// Law: numbers are ordered by sign and then by magnitude, as IEEE 754 has it. Both zeros
/// are the same, and what is not a number is neither below nor above anything.
pub proof fn numbers_are_ordered_by_their_bits(a: Double, b: Double, c: Double)
    ensures
        ({
            let sign: int = 0x8000_0000_0000_0000;
            let infinity: int = 0x7ff0_0000_0000_0000;
            let (x, y) = (a.bits as int, b.bits as int);
            &&& 0 <= x <= infinity && 0 <= y <= infinity ==> (a.below(b) <==> x < y)
            &&& sign <= x <= sign + infinity && sign <= y <= sign + infinity ==> (a.below(b) <==> x
                > y)
            &&& sign <= x <= sign + infinity && 0 <= y <= infinity ==> (a.below(b) <==> x > sign
                || y > 0)
            &&& 0 <= x <= infinity && sign <= y <= sign + infinity ==> !a.below(b)
            &&& infinity < x < sign || sign + infinity < x ==> !a.below(b) && !b.below(a)
        }),
        !a.below(a),
        a.below(b) && b.below(c) ==> a.below(c),
{
}

/// Law: without its sign a number has the same magnitude and is not below zero.
pub proof fn absolute_drops_the_sign(a: Double)
    ensures
        ({
            let sign: int = 0x8000_0000_0000_0000;
            &&& a.bits < sign ==> a.absolute() == a
            &&& a.bits >= sign ==> a.absolute().bits == a.bits - sign
            &&& !a.absolute().below(Double::nought())
        }),
        Double::nought().bits == 0,
{
}

} // verus!
