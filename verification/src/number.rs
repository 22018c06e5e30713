//! Motor strengths as IEEE 754 double-precision bit patterns.
//!
//! A strength travels through the crate as the bits of a double. Every
//! question the command rules ask of it (is it below a bound, is it not a
//! number, what is its opposite) is a question about those bits.
use vstd::prelude::*;

verus! {

/// Weight of the sign bit.
pub const SIGN: u64 = 0x8000_0000_0000_0000;

/// Bits of positive infinity; a larger magnitude is not a number.
pub const INFINITY: u64 = 0x7ff0_0000_0000_0000;

/// Bits of one.
pub const ONE: u64 = 0x3ff0_0000_0000_0000;

/// A double-precision value, kept as its bits.
#[derive(Clone, Copy, Debug, PartialEq, Eq, Structural)]
pub struct Number {
    pub bits: u64,
}

impl Number {
    /// The bits without the sign.
    pub open spec fn magnitude(self) -> int {
        if self.bits >= SIGN {
            self.bits - SIGN
        } else {
            self.bits as int
        }
    }

    /// Whether the bits stand for no number at all.
    pub open spec fn spec_is_nan(self) -> bool {
        self.magnitude() > INFINITY
    }

    /// Place of the value on the number line: for two numbers, one is less
    /// than the other exactly when its rank is. Both zeros have rank 0.
    pub open spec fn rank(self) -> int {
        if self.bits >= SIGN {
            -self.magnitude()
        } else {
            self.magnitude()
        }
    }

    /// The IEEE 754 order: nothing is less than, or greater than, a value that
    /// is not a number.
    pub open spec fn below(self, other: Number) -> bool {
        !self.spec_is_nan() && !other.spec_is_nan() && self.rank() < other.rank()
    }

    /// The value between `low` and `high` that is nearest to this one; a value
    /// that is not a number stays as it is.
    pub open spec fn clamped(self, low: Number, high: Number) -> Number {
        if self.below(low) {
            low
        } else if high.below(self) {
            high
        } else {
            self
        }
    }

    /// The value with its sign bit flipped.
    pub open spec fn opposite(self) -> Number {
        Number {
            bits: if self.bits >= SIGN {
                (self.bits - SIGN) as u64
            } else {
                (self.bits + SIGN) as u64
            },
        }
    }

    /// Zero.
    pub open spec fn spec_zero() -> Number {
        Number { bits: 0 }
    }

    /// One.
    pub open spec fn spec_one() -> Number {
        Number { bits: ONE }
    }

    /// The value zero.
    #[verifier::when_used_as_spec(spec_zero)]
    pub fn zero() -> (result: Number)
        ensures
            result == Number::spec_zero(),
    {
        Number { bits: 0 }
    }

    /// The value one.
    #[verifier::when_used_as_spec(spec_one)]
    pub fn one() -> (result: Number)
        ensures
            result == Number::spec_one(),
    {
        Number { bits: ONE }
    }

    /// Whether the bits stand for no number at all.
    pub fn is_nan(self) -> (result: bool)
        ensures
            result == self.spec_is_nan(),
    {
        let magnitude: u64 = if self.bits >= SIGN {
            self.bits - SIGN
        } else {
            self.bits
        };
        magnitude > INFINITY
    }

    /// Whether this value is less than `other`.
    pub fn is_below(self, other: Number) -> (result: bool)
        ensures
            result == self.below(other),
    {
        if self.is_nan() || other.is_nan() {
            return false;
        }
        if self.bits >= SIGN {
            if other.bits >= SIGN {
                other.bits < self.bits
            } else {
                self.bits != SIGN || other.bits != 0
            }
        } else {
            other.bits < SIGN && self.bits < other.bits
        }
    }

    /// Restricts the value to the interval from `low` to `high`.
    pub fn clamp_between(self, low: Number, high: Number) -> (result: Number)
        requires
            !low.spec_is_nan(),
            !high.spec_is_nan(),
            low.rank() <= high.rank(),
        ensures
            result == self.clamped(low, high),
    {
        if self.is_below(low) {
            low
        } else if high.is_below(self) {
            high
        } else {
            self
        }
    }

    /// The value with its sign flipped.
    pub fn negated(self) -> (result: Number)
        ensures
            result == self.opposite(),
    {
        Number {
            bits: if self.bits >= SIGN {
                self.bits - SIGN
            } else {
                self.bits + SIGN
            },
        }
    }
}

/// A number clamped to an interval lies in it, and one that lies in it is left as
/// it is.
pub proof fn law_clamped_lies_between(number: Number, low: Number, high: Number)
    requires
        !number.spec_is_nan(),
        !low.spec_is_nan(),
        !high.spec_is_nan(),
        low.rank() <= high.rank(),
    ensures
        low.rank() <= number.clamped(low, high).rank() <= high.rank(),
        low.rank() <= number.rank() <= high.rank() ==> number.clamped(low, high) == number,
        number.clamped(low, high).clamped(low, high) == number.clamped(low, high),
{
}

/// Flipping the sign twice changes nothing, and flipping it once mirrors the value
/// at zero.
pub proof fn law_opposite_mirrors(number: Number)
    ensures
        number.opposite().opposite() == number,
        number.opposite().rank() == -number.rank(),
        number.opposite().spec_is_nan() == number.spec_is_nan(),
{
}

/// What the bits of a double mean. Without the sign bit they count up from zero,
/// with it they count down; beyond infinity on either side there is no number. One
/// has the exponent of zero.
pub proof fn law_meaning_of_bits(number: Number)
    ensures
        number.bits < 0x8000_0000_0000_0000 ==> number.rank() == number.bits,
        number.bits >= 0x8000_0000_0000_0000 ==> number.rank() == 0x8000_0000_0000_0000
            - number.bits,
        number.spec_is_nan() <==> (0x7ff0_0000_0000_0000 < number.bits < 0x8000_0000_0000_0000
            || number.bits > 0xfff0_0000_0000_0000),
        Number::spec_zero().bits == 0,
        Number::spec_one().bits == 0x3ff0_0000_0000_0000,
{
}

/// Two numbers are equal or one is below the other, as their places on the number
/// line are. What is not a number is below nothing, and nothing is below it.
pub proof fn law_order_of_numbers(a: Number, b: Number)
    ensures
        a.spec_is_nan() || b.spec_is_nan() ==> !a.below(b) && !b.below(a),
        !a.spec_is_nan() && !b.spec_is_nan() ==> (a.below(b) <==> a.rank() < b.rank()) && (a.rank()
            == b.rank() <==> !a.below(b) && !b.below(a)),
{
}

/// What lies outside an interval is cut to the nearer end of it, and what is not a
/// number stays as it is.
pub proof fn law_clamped_to_the_nearer_end(number: Number, low: Number, high: Number)
    requires
        !low.spec_is_nan(),
        !high.spec_is_nan(),
        low.rank() <= high.rank(),
    ensures
        number.spec_is_nan() ==> number.clamped(low, high) == number,
        !number.spec_is_nan() && number.rank() < low.rank() ==> number.clamped(low, high) == low,
        !number.spec_is_nan() && number.rank() > high.rank() ==> number.clamped(low, high) == high,
{
}

/// Flipping the sign adds or takes away the sign bit and leaves the other bits.
pub proof fn law_opposite_flips_one_bit(number: Number)
    ensures
        number.bits < 0x8000_0000_0000_0000 ==> number.opposite().bits == number.bits
            + 0x8000_0000_0000_0000,
        number.bits >= 0x8000_0000_0000_0000 ==> number.opposite().bits == number.bits
            - 0x8000_0000_0000_0000,
{
}

} // verus!
