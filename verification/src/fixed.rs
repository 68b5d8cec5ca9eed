//! Signed decimal fixed-point scalars with saturating arithmetic.

use crate::arith::{saturate, saturated, trunc_div};
use vstd::prelude::*;

verus! {

/// Number of raw units in 1.0: twelve decimal places.
pub const SCALE: i64 = 1_000_000_000_000;

/// Number of raw units in 0.001.
pub const MILLI: i64 = 1_000_000_000;

/// A scalar stored as a whole number of `1 / SCALE` steps.
///
/// Every operation computes the exact result in wide integers, rounds toward
/// zero where a division is involved, and saturates to `[-LIMIT, LIMIT]`.
#[derive(Clone, Copy, Debug, PartialEq, Eq, Structural)]
pub struct Fixed {
    pub raw: i64,
}

impl View for Fixed {
    type V = int;

    /// The scalar as its number of raw units.
    open spec fn view(&self) -> int {
        self.raw as int
    }
}

impl Fixed {
    /// The scalar of `x` raw units, saturated.
    pub open spec fn of(x: int) -> Fixed {
        Fixed { raw: saturated(x) as i64 }
    }

    /// Saturated sum.
    pub open spec fn plus(self, rhs: Fixed) -> Fixed {
        Fixed::of(self.raw + rhs.raw)
    }

    /// Saturated difference.
    pub open spec fn minus(self, rhs: Fixed) -> Fixed {
        Fixed::of(self.raw - rhs.raw)
    }

    /// Saturated product, rounded toward zero.
    pub open spec fn times(self, rhs: Fixed) -> Fixed {
        Fixed::of(trunc_div(self.raw * rhs.raw, SCALE as int))
    }

    /// The scalar with exactly this many raw units.
    pub fn from_raw(raw: i64) -> (r: Fixed)
        ensures
            r.raw == raw,
    {
        Fixed { raw }
    }

    /// The number of raw units.
    pub fn raw(self) -> (r: i64)
        ensures
            r == self.raw,
    {
        self.raw
    }

    /// Zero.
    pub fn zero() -> (r: Fixed)
        ensures
            r.raw == 0,
    {
        Fixed { raw: 0 }
    }

    /// The whole number `units`, saturated.
    pub fn from_int(units: i64) -> (r: Fixed)
        ensures
            r == Fixed::of(units * SCALE),
    {
        assert(-0x4000_0000_0000_0000_0000_0000_0000_0000 <= units * SCALE
            <= 0x4000_0000_0000_0000_0000_0000_0000_0000) by (nonlinear_arith)
            requires
                -0x8000_0000_0000_0000 <= units <= 0x7fff_ffff_ffff_ffff,
                SCALE == 1_000_000_000_000,
        ;
        let wide: i128 = (units as i128) * (SCALE as i128);
        Fixed { raw: saturate(wide) }
    }

    /// `thousandths / 1000`, saturated.
    pub fn from_millis(thousandths: i64) -> (r: Fixed)
        ensures
            r == Fixed::of(thousandths * MILLI),
    {
        assert(-0x4000_0000_0000_0000_0000_0000_0000_0000 <= thousandths * MILLI
            <= 0x4000_0000_0000_0000_0000_0000_0000_0000) by (nonlinear_arith)
            requires
                -0x8000_0000_0000_0000 <= thousandths <= 0x7fff_ffff_ffff_ffff,
                MILLI == 1_000_000_000,
        ;
        let wide: i128 = (thousandths as i128) * (MILLI as i128);
        Fixed { raw: saturate(wide) }
    }

    /// Whether the scalar is strictly greater than zero.
    pub fn is_positive(self) -> (b: bool)
        ensures
            b == (self.raw > 0),
    {
        self.raw > 0
    }

    /// Saturated sum.
    pub fn saturating_add(self, rhs: Fixed) -> (r: Fixed)
        ensures
            r == self.plus(rhs),
    {
        let wide: i128 = (self.raw as i128) + (rhs.raw as i128);
        Fixed { raw: saturate(wide) }
    }

    /// Saturated difference.
    pub fn saturating_sub(self, rhs: Fixed) -> (r: Fixed)
        ensures
            r == self.minus(rhs),
    {
        let wide: i128 = (self.raw as i128) - (rhs.raw as i128);
        Fixed { raw: saturate(wide) }
    }

    /// Saturated product, rounded toward zero.
    pub fn saturating_mul(self, rhs: Fixed) -> (r: Fixed)
        ensures
            r == self.times(rhs),
    {
        let a: i64 = self.raw;
        let b: i64 = rhs.raw;
        assert(-0x4000_0000_0000_0000_0000_0000_0000_0000 <= a * b
            <= 0x4000_0000_0000_0000_0000_0000_0000_0000) by (nonlinear_arith)
            requires
                -0x8000_0000_0000_0000 <= a <= 0x7fff_ffff_ffff_ffff,
                -0x8000_0000_0000_0000 <= b <= 0x7fff_ffff_ffff_ffff,
        ;
        let wide: i128 = (a as i128) * (b as i128);
        Fixed { raw: saturate(wide / (SCALE as i128)) }
    }
}

/// A product with a zero factor is zero.
pub proof fn lemma_times_zero(a: Fixed, b: Fixed)
    requires
        a.raw == 0 || b.raw == 0,
    ensures
        a.times(b).raw == 0,
{
    assert(a.raw * b.raw == 0) by (nonlinear_arith)
        requires
            a.raw == 0 || b.raw == 0,
    ;
}

} // verus!
