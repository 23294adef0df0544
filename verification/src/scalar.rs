//! Numbers in IEEE-754 binary32 format, held by their bit patterns.
//!
//! The renderer computes with such numbers elsewhere; what it decides by
//! comparing them is decided here, on the patterns alone.

use vstd::arithmetic::power2::{
    lemma_pow2_pos, lemma_pow2_strictly_increases, lemma_pow2_unfold, pow2,
};
use vstd::prelude::*;

verus! {

/// The pattern of the sign bit.
pub const SIGN_BIT: u32 = 0x8000_0000;

/// The pattern of positive infinity: every magnitude above it is not a number.
pub const INFINITY_BITS: u32 = 0x7f80_0000;

/// The lowest exponent bit: the fraction lies below it.
pub const FRACTION_SPAN: u32 = 0x80_0000;

/// The pattern of one.
pub const ONE_BITS: u32 = 0x3f80_0000;

/// The pattern of the number nearest to one ten-thousandth.
pub const EPSILON_BITS: u32 = 0x38d1_b717;

/// A binary32 number: one sign bit, eight exponent bits, twenty-three
/// fraction bits, from the highest bit down.
#[derive(Clone, Copy, Debug)]
pub struct Scalar {
    pub bits: u32,
}

impl Scalar {
    /// Whether the sign bit is set.
    pub open spec fn negative(self) -> bool {
        self.bits >= SIGN_BIT
    }

    /// The pattern without its sign bit.
    pub open spec fn magnitude(self) -> int {
        if self.bits >= SIGN_BIT {
            self.bits - SIGN_BIT
        } else {
            self.bits as int
        }
    }

    /// Whether the pattern stands for no number at all.
    pub open spec fn nan(self) -> bool {
        self.magnitude() > INFINITY_BITS
    }

    /// Whether the pattern stands for a number that is not infinite.
    pub open spec fn finite(self) -> bool {
        self.magnitude() < INFINITY_BITS
    }

    /// The exponent bits, read as an integer.
    pub open spec fn exponent(self) -> int {
        self.magnitude() / (FRACTION_SPAN as int)
    }

    /// The fraction bits, read as an integer.
    pub open spec fn fraction(self) -> int {
        self.magnitude() % (FRACTION_SPAN as int)
    }

    /// The digits of the number: the fraction, and above it a leading one
    /// unless the exponent bits are all zero.
    pub open spec fn significand(self) -> int {
        if self.exponent() == 0 {
            self.fraction()
        } else {
            FRACTION_SPAN + self.fraction()
        }
    }

    /// How many places the digits are shifted up from the smallest the format
    /// can hold.
    pub open spec fn shift(self) -> nat {
        if self.exponent() == 0 {
            0
        } else {
            (self.exponent() - 1) as nat
        }
    }

    /// The absolute value of a finite number, in units of 2 to the -149, the
    /// smallest positive number of the format: always a whole count.
    pub open spec fn scaled_magnitude(self) -> int {
        self.significand() * pow2(self.shift())
    }

    /// The value of a finite number in the same units.
    pub open spec fn scaled(self) -> int {
        if self.negative() {
            -self.scaled_magnitude()
        } else {
            self.scaled_magnitude()
        }
    }

    /// An integer that orders the numbers as their values do: the magnitude,
    /// negated under a set sign bit. Both zeros have rank 0.
    pub open spec fn rank(self) -> int {
        if self.negative() {
            -self.magnitude()
        } else {
            self.magnitude()
        }
    }

    /// The number with the opposite sign: the same pattern but for the sign
    /// bit.
    pub open spec fn negated(self) -> Scalar {
        if self.bits >= SIGN_BIT {
            Scalar { bits: (self.bits - SIGN_BIT) as u32 }
        } else {
            Scalar { bits: (self.bits + SIGN_BIT) as u32 }
        }
    }

    /// `self < other` as binary32 defines it: false when either is not a
    /// number, else the order of the values.
    pub open spec fn below(self, other: Scalar) -> bool {
        !self.nan() && !other.nan() && self.rank() < other.rank()
    }

    /// The number with the given pattern.
    pub open spec fn spec_from_bits(bits: u32) -> Scalar {
        Scalar { bits }
    }

    /// The number with the given pattern.
    #[verifier::when_used_as_spec(spec_from_bits)]
    pub fn from_bits(bits: u32) -> (s: Scalar)
        ensures
            s == Scalar::from_bits(bits),
    {
        Scalar { bits }
    }

    /// Whether this is not a number.
    pub fn is_nan(self) -> (r: bool)
        ensures
            r == self.nan(),
    {
        let magnitude: u32 = if self.bits >= SIGN_BIT {
            self.bits - SIGN_BIT
        } else {
            self.bits
        };
        magnitude > INFINITY_BITS
    }

    /// Whether `self < other`.
    pub fn lt(self, other: Scalar) -> (r: bool)
        ensures
            r == self.below(other),
    {
        !self.is_nan() && !other.is_nan() && self.ordinal() < other.ordinal()
    }

    /// Whether `self > other`.
    pub fn gt(self, other: Scalar) -> (r: bool)
        ensures
            r == other.below(self),
    {
        other.lt(self)
    }

    /// The same number with its sign bit cleared.
    pub fn abs(self) -> (r: Scalar)
        ensures
            r.bits == self.magnitude(),
    {
        if self.bits >= SIGN_BIT {
            Scalar { bits: self.bits - SIGN_BIT }
        } else {
            self
        }
    }

    /// The number with the opposite sign.
    pub fn neg(self) -> (r: Scalar)
        ensures
            r == self.negated(),
            r.magnitude() == self.magnitude(),
            r.negative() != self.negative(),
            r.rank() == -self.rank(),
    {
        if self.bits >= SIGN_BIT {
            Scalar { bits: self.bits - SIGN_BIT }
        } else {
            Scalar { bits: self.bits + SIGN_BIT }
        }
    }

    fn ordinal(self) -> (k: i64)
        ensures
            k == self.rank(),
    {
        if self.bits >= SIGN_BIT {
            let magnitude: u32 = self.bits - SIGN_BIT;
            -(magnitude as i64)
        } else {
            self.bits as i64
        }
    }
}

/// Of two finite numbers the one with the smaller pattern, sign aside, has
/// the smaller absolute value; only the zeros have absolute value zero.
pub proof fn lemma_magnitude_orders_value(a: Scalar, b: Scalar)
    requires
        a.finite(),
        b.finite(),
    ensures
        a.scaled_magnitude() >= 0,
        a.scaled_magnitude() == 0 <==> a.magnitude() == 0,
        a.magnitude() < b.magnitude() <==> a.scaled_magnitude() < b.scaled_magnitude(),
{
    lemma_scaled_magnitude_bounds(a);
    lemma_scaled_magnitude_bounds(b);
    if a.magnitude() < b.magnitude() {
        lemma_magnitude_strictly_orders_value(a, b);
    } else if b.magnitude() < a.magnitude() {
        lemma_magnitude_strictly_orders_value(b, a);
    }
}

/// Comparing two finite numbers compares their values.
pub proof fn lemma_order_follows_value(a: Scalar, b: Scalar)
    requires
        a.finite(),
        b.finite(),
    ensures
        a.below(b) <==> a.scaled() < b.scaled(),
{
    lemma_magnitude_orders_value(a, b);
    lemma_magnitude_orders_value(b, a);
}

proof fn lemma_scaled_magnitude_bounds(a: Scalar)
    requires
        a.finite(),
    ensures
        a.scaled_magnitude() >= 0,
        a.scaled_magnitude() == 0 <==> a.magnitude() == 0,
        0 <= a.fraction() < FRACTION_SPAN,
        0 <= a.exponent() < 255,
        a.magnitude() == a.exponent() * FRACTION_SPAN + a.fraction(),
        a.exponent() > 0 ==> a.scaled_magnitude() >= FRACTION_SPAN * pow2(a.shift()),
        a.exponent() > 0 ==> a.scaled_magnitude() < 2 * FRACTION_SPAN * pow2(a.shift()),
        a.exponent() == 0 ==> a.scaled_magnitude() == a.fraction(),
{
    let p = pow2(a.shift()) as int;
    let g = a.significand();
    lemma_pow2_pos(a.shift());
    if a.exponent() == 0 {
        assert(pow2(0) == 1) by {
            vstd::arithmetic::power2::lemma2_to64();
        }
    } else {
        assert(g * p >= FRACTION_SPAN * p && g * p < 2 * FRACTION_SPAN * p && g * p > 0)
            by (nonlinear_arith)
            requires
                p > 0,
                FRACTION_SPAN <= g < 2 * FRACTION_SPAN,
        ;
    }
}

proof fn lemma_magnitude_strictly_orders_value(a: Scalar, b: Scalar)
    requires
        a.finite(),
        b.finite(),
        a.magnitude() < b.magnitude(),
    ensures
        a.scaled_magnitude() < b.scaled_magnitude(),
{
    lemma_scaled_magnitude_bounds(a);
    lemma_scaled_magnitude_bounds(b);
    let pa = pow2(a.shift()) as int;
    let pb = pow2(b.shift()) as int;
    lemma_pow2_pos(a.shift());
    lemma_pow2_pos(b.shift());
    if a.exponent() == b.exponent() {
        let ga = a.significand();
        let gb = b.significand();
        assert(ga * pa < gb * pa) by (nonlinear_arith)
            requires
                ga < gb,
                pa > 0,
        ;
    } else {
        assert(a.exponent() < b.exponent());
        if a.exponent() == 0 {
            assert(FRACTION_SPAN * pb >= FRACTION_SPAN) by (nonlinear_arith)
                requires
                    pb >= 1,
            ;
        } else {
            // Twice the smaller power is at most the larger.
            lemma_pow2_unfold(a.shift() + 1);
            if a.shift() + 1 < b.shift() {
                lemma_pow2_strictly_increases(a.shift() + 1, b.shift());
            }
            assert(2 * FRACTION_SPAN * pa <= FRACTION_SPAN * pb) by (nonlinear_arith)
                requires
                    2 * pa <= pb,
            ;
        }
    }
}

} // verus!
