//! Newton's third law for the pairwise attraction: exact reaction for the
//! displacement, and equality of the two momentum changes up to rounding.

use crate::arith::{abs, fits, lemma_trunc_div_remainder, trunc_div};
use crate::body::Body;
use crate::fixed::{Fixed, SCALE};
use crate::force::{
    acceleration_from, contribution, lemma_reaction, lemma_softened_distance_bounds, pull,
    softened_distance,
};
use crate::store::masses_positive;
use crate::vector::Vector3;
use vstd::prelude::*;

verus! {

/// One rounding step applied to two quantities that are weighted crosswise by
/// the masses `m1` and `m2`: the weighted difference grows by the factor
/// `c / d` and by at most one unit per unit of mass.
proof fn lemma_scaled_gap(m1: int, m2: int, a1: int, a2: int, c: int, d: int)
    requires
        m1 > 0,
        m2 > 0,
        d > 0,
    ensures
        abs(m2 * trunc_div(a1 * c, d) - m1 * trunc_div(a2 * c, d)) * d <= abs(c) * abs(
            m2 * a1 - m1 * a2,
        ) + (m1 + m2) * d,
{
    let b1: int = trunc_div(a1 * c, d);
    let b2: int = trunc_div(a2 * c, d);
    lemma_trunc_div_remainder(a1 * c, d);
    lemma_trunc_div_remainder(a2 * c, d);
    let rem1: int = a1 * c - b1 * d;
    let rem2: int = a2 * c - b2 * d;
    let gap: int = m2 * b1 - m1 * b2;
    let before: int = m2 * a1 - m1 * a2;
    let q1: int = a1 * c;
    let q2: int = a2 * c;
    let whole1: int = b1 * d;
    let whole2: int = b2 * d;
    assert((m2 * b1 - m1 * b2) * d == m2 * (b1 * d) - m1 * (b2 * d)) by (nonlinear_arith);
    assert(m2 * (q1 - rem1) == m2 * q1 - m2 * rem1) by (nonlinear_arith);
    assert(m1 * (q2 - rem2) == m1 * q2 - m1 * rem2) by (nonlinear_arith);
    assert(m2 * (a1 * c) == c * (m2 * a1)) by (nonlinear_arith);
    assert(m1 * (a2 * c) == c * (m1 * a2)) by (nonlinear_arith);
    assert(c * (m2 * a1 - m1 * a2) == c * (m2 * a1) - c * (m1 * a2)) by (nonlinear_arith);
    assert(whole1 == q1 - rem1 && whole2 == q2 - rem2);
    assert(gap * d == c * before - (m2 * rem1 - m1 * rem2));
    assert(abs(m2 * rem1) <= m2 * d && abs(m1 * rem2) <= m1 * d) by (nonlinear_arith)
        requires
            m1 > 0,
            m2 > 0,
            abs(rem1) < d,
            abs(rem2) < d,
    ;
    assert(abs(c * before) == abs(c) * abs(before)) by (nonlinear_arith);
    assert(abs(gap * d) == abs(gap) * d) by (nonlinear_arith)
        requires
            d > 0,
    ;
    assert((m1 + m2) * d == m1 * d + m2 * d) by (nonlinear_arith);
}

/// The two pulls of a pair, weighted crosswise by the masses, differ by no
/// more than the roundings allow: less than one unit per unit of mass at each
/// of the roundings, the earlier ones magnified by the later divisions.
pub proof fn lemma_pull_gap(g: int, m1: int, m2: int, r: int, d: int)
    requires
        m1 > 0,
        m2 > 0,
        d > 0,
        abs(r) <= d,
    ensures
        abs(
            m2 * pull(trunc_div(g * m1, SCALE as int), r, d) - m1 * pull(
                trunc_div(g * m2, SCALE as int),
                r,
                d,
            ),
        ) * d * d <= (m1 + m2) * (2 * SCALE * SCALE + SCALE * d + d * d),
{
    let s: int = SCALE as int;
    let m: int = m1 + m2;
    let a1: int = trunc_div(g * m1, s);
    let a2: int = trunc_div(g * m2, s);
    let gap0: int = abs(m2 * a1 - m1 * a2);
    assert(gap0 <= m) by {
        lemma_scaled_gap(m1, m2, m1, m2, g, s);
        assert(m1 * g == g * m1 && m2 * g == g * m2) by (nonlinear_arith);
        assert(m2 * m1 - m1 * m2 == 0) by (nonlinear_arith);
        assert(abs(g) * abs(m2 * m1 - m1 * m2) == 0) by (nonlinear_arith)
            requires
                m2 * m1 - m1 * m2 == 0,
        ;
        assert(gap0 * s <= m * s);
        assert(gap0 <= m) by (nonlinear_arith)
            requires
                gap0 * s <= m * s,
                s > 0,
        ;
    }
    let x1: int = trunc_div(a1 * r, d);
    let x2: int = trunc_div(a2 * r, d);
    let gap1: int = abs(m2 * x1 - m1 * x2);
    assert(gap1 <= 2 * m) by {
        lemma_scaled_gap(m1, m2, a1, a2, r, d);
        assert(abs(r) * gap0 <= d * m) by (nonlinear_arith)
            requires
                0 <= abs(r) <= d,
                0 <= gap0 <= m,
        ;
        assert(gap1 <= 2 * m) by (nonlinear_arith)
            requires
                gap1 * d <= d * m + m * d,
                d > 0,
        ;
    }
    let y1: int = trunc_div(x1 * s, d);
    let y2: int = trunc_div(x2 * s, d);
    let gap2: int = abs(m2 * y1 - m1 * y2);
    assert(gap2 * d <= 2 * m * s + m * d) by {
        lemma_scaled_gap(m1, m2, x1, x2, s, d);
        assert(abs(s) * gap1 <= 2 * m * s) by (nonlinear_arith)
            requires
                s > 0,
                0 <= gap1 <= 2 * m,
        ;
    }
    let z1: int = trunc_div(y1 * s, d);
    let z2: int = trunc_div(y2 * s, d);
    let gap3: int = abs(m2 * z1 - m1 * z2);
    assert(z1 == pull(a1, r, d) && z2 == pull(a2, r, d));
    assert(gap3 * d * d <= m * (2 * s * s + s * d + d * d)) by {
        lemma_scaled_gap(m1, m2, y1, y2, s, d);
        assert(gap3 * d <= s * gap2 + m * d);
        assert(gap3 * d * d <= m * (2 * s * s + s * d + d * d)) by (nonlinear_arith)
            requires
                gap3 * d <= s * gap2 + m * d,
                gap2 * d <= 2 * m * s + m * d,
                s > 0,
                d > 0,
        ;
    }
}

/// No rounding of the pull of `mass` at displacement `r` leaves the
/// saturating range: neither the product of constant and mass nor any
/// component of the acceleration.
pub open spec fn unsaturated(g: Fixed, mass: Fixed, r: Vector3) -> bool {
    let gm = trunc_div(g.raw * mass.raw, SCALE as int);
    let d = softened_distance(r);
    &&& fits(gm)
    &&& fits(pull(gm, r.x.raw as int, d))
    &&& fits(pull(gm, r.y.raw as int, d))
    &&& fits(pull(gm, r.z.raw as int, d))
}

/// How far `mass_i * on_i` is from `-mass_j * on_j`, in squared raw units.
pub open spec fn momentum_gap(mass_i: Fixed, on_i: Fixed, mass_j: Fixed, on_j: Fixed) -> int {
    abs(mass_i.raw * on_i.raw + mass_j.raw * on_j.raw)
}

/// The largest momentum gap that rounding can leave between two bodies of
/// total mass `total` (in raw units) at the softened distance `d`.
pub open spec fn rounding_allowance(total: int, d: int) -> int {
    total * (2 * SCALE * SCALE + SCALE * d + d * d)
}

/// Newton's third law, up to rounding: for two bodies `i` and `j`, the mass
/// of `i` times the acceleration that `j` causes on it is the opposite of the
/// mass of `j` times the acceleration that `i` causes on it, to within the
/// rounding allowance. In scalar terms the two momentum changes differ by at
/// most `(m_i + m_j) * (2 / d^2 + 1 / d + 1)` steps of the resolution, `d`
/// being the softened distance. The statement leaves out pairs whose pull
/// saturates, where the two sides are cut off unequally.
pub proof fn lemma_pairwise_symmetry(bodies: Seq<Body>, g: Fixed, i: int, j: int)
    requires
        0 <= i < bodies.len(),
        0 <= j < bodies.len(),
        masses_positive(bodies),
        unsaturated(g, bodies[j].mass, bodies[j].position.minus(bodies[i].position)),
        unsaturated(g, bodies[i].mass, bodies[j].position.minus(bodies[i].position)),
    ensures
        ({
            let on_i = contribution(bodies, g, i, j);
            let on_j = contribution(bodies, g, j, i);
            let d = softened_distance(bodies[j].position.minus(bodies[i].position));
            let allowance = rounding_allowance(bodies[i].mass.raw + bodies[j].mass.raw, d);
            &&& momentum_gap(bodies[i].mass, on_i.x, bodies[j].mass, on_j.x) * d * d <= allowance
            &&& momentum_gap(bodies[i].mass, on_i.y, bodies[j].mass, on_j.y) * d * d <= allowance
            &&& momentum_gap(bodies[i].mass, on_i.z, bodies[j].mass, on_j.z) * d * d <= allowance
        }),
{
    let mi: int = bodies[i].mass.raw as int;
    let mj: int = bodies[j].mass.raw as int;
    let r: Vector3 = bodies[j].position.minus(bodies[i].position);
    let d: int = softened_distance(r);
    let on_i: Vector3 = contribution(bodies, g, i, j);
    let on_j: Vector3 = contribution(bodies, g, j, i);
    let back: Vector3 = acceleration_from(g, bodies[i].mass, r);
    lemma_softened_distance_bounds(r);
    lemma_reaction(g, bodies[i].mass, bodies[i].position, bodies[j].position);
    assert(on_j.x.raw == -back.x.raw && on_j.y.raw == -back.y.raw && on_j.z.raw == -back.z.raw);
    let gi: int = trunc_div(g.raw * mi, SCALE as int);
    let gj: int = trunc_div(g.raw * mj, SCALE as int);
    assert(g.times(bodies[i].mass).raw == gi);
    assert(g.times(bodies[j].mass).raw == gj);
    lemma_pull_gap(g.raw as int, mj, mi, r.x.raw as int, d);
    lemma_pull_gap(g.raw as int, mj, mi, r.y.raw as int, d);
    lemma_pull_gap(g.raw as int, mj, mi, r.z.raw as int, d);
    assert(mi * on_i.x.raw + mj * on_j.x.raw == mi * pull(gj, r.x.raw as int, d) - mj * pull(
        gi,
        r.x.raw as int,
        d,
    )) by (nonlinear_arith)
        requires
            on_i.x.raw == pull(gj, r.x.raw as int, d),
            on_j.x.raw == -pull(gi, r.x.raw as int, d),
    ;
    assert(mi * on_i.y.raw + mj * on_j.y.raw == mi * pull(gj, r.y.raw as int, d) - mj * pull(
        gi,
        r.y.raw as int,
        d,
    )) by (nonlinear_arith)
        requires
            on_i.y.raw == pull(gj, r.y.raw as int, d),
            on_j.y.raw == -pull(gi, r.y.raw as int, d),
    ;
    assert(mi * on_i.z.raw + mj * on_j.z.raw == mi * pull(gj, r.z.raw as int, d) - mj * pull(
        gi,
        r.z.raw as int,
        d,
    )) by (nonlinear_arith)
        requires
            on_i.z.raw == pull(gj, r.z.raw as int, d),
            on_j.z.raw == -pull(gi, r.z.raw as int, d),
    ;
}

} // verus!
