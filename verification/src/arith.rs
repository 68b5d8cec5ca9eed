//! Integer building blocks of the fixed-point arithmetic: saturation to a
//! symmetric range, division rounded toward zero, and the integer square root.

use vstd::prelude::*;

verus! {

/// Largest magnitude that a saturating operation can produce. The range is
/// symmetric, so negating a saturated value is always exact.
pub const LIMIT: i64 = 9_223_372_036_854_775_807;

/// Magnitude of `x`.
pub open spec fn abs(x: int) -> int {
    if x < 0 {
        -x
    } else {
        x
    }
}

/// `x` brought into `[-LIMIT, LIMIT]`: values outside the range stick to the
/// nearer end.
pub open spec fn saturated(x: int) -> int {
    if x > LIMIT {
        LIMIT as int
    } else if x < -LIMIT {
        -(LIMIT as int)
    } else {
        x
    }
}

/// Whether `x` lies in `[-LIMIT, LIMIT]`, i.e. saturation leaves it alone.
pub open spec fn fits(x: int) -> bool {
    -LIMIT <= x <= LIMIT
}

/// Quotient of `a` by a positive `b`, rounded toward zero.
pub open spec fn trunc_div(a: int, b: int) -> int
    recommends
        b > 0,
{
    if a >= 0 {
        a / b
    } else {
        -((-a) / b)
    }
}

/// `r` is the integer square root of `n`: the largest integer whose square
/// does not exceed `n`.
pub open spec fn is_int_sqrt(n: int, r: int) -> bool {
    0 <= r && r * r <= n && n < (r + 1) * (r + 1)
}

/// The integer square root of a non-negative `n`.
pub open spec fn int_sqrt(n: int) -> int
    recommends
        n >= 0,
{
    choose|r: int| is_int_sqrt(n, r)
}

/// Saturation is odd: it commutes with negation.
pub proof fn lemma_saturated_odd(x: int)
    ensures
        saturated(-x) == -saturated(x),
        fits(saturated(x)),
{
}

/// Saturation never increases a magnitude.
pub proof fn lemma_saturated_shrinks(x: int, weight: int)
    requires
        weight >= 0,
    ensures
        abs(saturated(x)) <= abs(x),
        abs(saturated(x)) * weight <= abs(x) * weight,
{
    assert(abs(saturated(x)) * weight <= abs(x) * weight) by (nonlinear_arith)
        requires
            0 <= abs(saturated(x)) <= abs(x),
            weight >= 0,
    ;
}

/// Rounding toward zero is odd in the dividend.
pub proof fn lemma_trunc_div_odd(a: int, b: int)
    requires
        b > 0,
    ensures
        trunc_div(-a, b) == -trunc_div(a, b),
{
    if a == 0 {
        assert(0int / b == 0) by (nonlinear_arith)
            requires
                b > 0,
        ;
    }
}

/// The quotient rounded toward zero misses the dividend by less than one
/// divisor, on the side of zero.
pub proof fn lemma_trunc_div_remainder(a: int, b: int)
    requires
        b > 0,
    ensures
        abs(a - trunc_div(a, b) * b) < b,
        a >= 0 ==> 0 <= trunc_div(a, b) * b <= a,
        a <= 0 ==> a <= trunc_div(a, b) * b <= 0,
{
    if a >= 0 {
        assert(0 <= a - (a / b) * b < b && 0 <= (a / b) * b) by (nonlinear_arith)
            requires
                b > 0,
                a >= 0,
        ;
    } else {
        let m = -a;
        assert(0 <= m - (m / b) * b < b && 0 <= (m / b) * b) by (nonlinear_arith)
            requires
                b > 0,
                m >= 0,
        ;
        assert((-(m / b)) * b == -((m / b) * b)) by (nonlinear_arith);
    }
}

/// A dividend of magnitude at most `c * b` has a quotient of magnitude at
/// most `c`.
pub proof fn lemma_trunc_div_bound(a: int, b: int, c: int)
    requires
        b > 0,
        c >= 0,
        abs(a) <= c * b,
    ensures
        abs(trunc_div(a, b)) <= c,
{
    let m = abs(a);
    assert(m / b <= c) by (nonlinear_arith)
        requires
            b > 0,
            0 <= m <= c * b,
    ;
    assert(0 <= m / b) by (nonlinear_arith)
        requires
            b > 0,
            0 <= m,
    ;
}

/// At most one integer is the square root of `n`.
pub proof fn lemma_int_sqrt_unique(n: int, r: int)
    requires
        is_int_sqrt(n, r),
    ensures
        int_sqrt(n) == r,
{
    let s = int_sqrt(n);
    assert(is_int_sqrt(n, s));
    if s < r {
        assert((s + 1) * (s + 1) <= r * r) by (nonlinear_arith)
            requires
                0 <= s,
                s + 1 <= r,
        ;
    }
    if r < s {
        assert((r + 1) * (r + 1) <= s * s) by (nonlinear_arith)
            requires
                0 <= r,
                r + 1 <= s,
        ;
    }
}

/// Every non-negative integer has a square root.
pub proof fn lemma_int_sqrt_exists(n: int)
    requires
        n >= 0,
    ensures
        is_int_sqrt(n, int_sqrt(n)),
    decreases n,
{
    if n == 0 {
        assert(is_int_sqrt(0, 0));
    } else {
        lemma_int_sqrt_exists(n - 1);
        let r = int_sqrt(n - 1);
        if n < (r + 1) * (r + 1) {
            assert(is_int_sqrt(n, r));
        } else {
            assert((r + 2) * (r + 2) > (r + 1) * (r + 1)) by (nonlinear_arith)
                requires
                    0 <= r,
            ;
            assert(is_int_sqrt(n, r + 1));
        }
    }
}

/// The square root is at least any `b` whose square fits under `n`.
pub proof fn lemma_int_sqrt_at_least(n: int, b: int)
    requires
        0 <= b,
        b * b <= n,
    ensures
        int_sqrt(n) >= b,
{
    lemma_int_sqrt_exists(n);
    let s = int_sqrt(n);
    if s < b {
        assert((s + 1) * (s + 1) <= b * b) by (nonlinear_arith)
            requires
                0 <= s,
                s + 1 <= b,
        ;
    }
}

/// Brings a wide intermediate result back into the saturating range.
pub fn saturate(x: i128) -> (r: i64)
    ensures
        r == saturated(x as int),
{
    if x > LIMIT as i128 {
        LIMIT
    } else if x < -(LIMIT as i128) {
        -LIMIT
    } else {
        x as i64
    }
}

/// Integer square root by bisection: the invariant keeps the answer between
/// `low` (inclusive) and `high` (exclusive).
pub fn isqrt(n: u128) -> (r: u64)
    ensures
        r == int_sqrt(n as int),
        is_int_sqrt(n as int, r as int),
{
    let mut low: u128 = 0;
    let mut high: u128 = 0x1_0000_0000_0000_0000;
    assert(0x1_0000_0000_0000_0000int * 0x1_0000_0000_0000_0000int
        == 0x1_0000_0000_0000_0000_0000_0000_0000_0000int) by (nonlinear_arith);
    while high - low > 1
        invariant
            low < high <= 0x1_0000_0000_0000_0000,
            low * low <= n,
            n < high * high,
        decreases high - low,
    {
        let mid: u128 = low + (high - low) / 2;
        assert(mid * mid <= 0xffff_ffff_ffff_ffff_ffff_ffff_ffff_ffff) by (nonlinear_arith)
            requires
                mid <= 0xffff_ffff_ffff_ffff,
        ;
        if mid * mid <= n {
            low = mid;
        } else {
            high = mid;
        }
    }
    proof {
        assert(high == low + 1);
        lemma_int_sqrt_unique(n as int, low as int);
    }
    low as u64
}

} // verus!
