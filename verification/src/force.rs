//! The force accumulator: softened pairwise attraction and the net
//! acceleration of every body.

use crate::arith::{
    abs, int_sqrt, is_int_sqrt, isqrt, lemma_int_sqrt_at_least, lemma_int_sqrt_exists,
    lemma_saturated_odd, lemma_saturated_shrinks, lemma_trunc_div_bound, lemma_trunc_div_odd,
    lemma_trunc_div_remainder, saturate, trunc_div, LIMIT,
};
use crate::body::Body;
use crate::fixed::{Fixed, SCALE};
use crate::store::BodyStore;
use crate::vector::Vector3;
use vstd::prelude::*;

verus! {

/// The softening length in raw units (0.001). Distances enter the force law as
/// `sqrt(d * d + SOFTENING * SOFTENING)`, which keeps the attraction of bodies
/// that nearly coincide bounded. A larger value trades short-range accuracy for
/// a lower bound on accelerations.
pub const SOFTENING: i64 = 1_000_000_000;

/// The squared softened length of the displacement `r`, in squared raw units.
pub open spec fn softened_square(r: Vector3) -> int {
    r.x.raw * r.x.raw + r.y.raw * r.y.raw + r.z.raw * r.z.raw + SOFTENING * SOFTENING
}

/// The softened length of the displacement `r`, in raw units, rounded down.
pub open spec fn softened_distance(r: Vector3) -> int {
    int_sqrt(softened_square(r))
}

/// One component of the acceleration `gm * r / d^3`, in raw units before
/// saturation: `gm` is scaled by the direction cosine `r / d` and then divided
/// by `d` twice, rounding toward zero each time.
pub open spec fn pull(gm: int, r: int, d: int) -> int {
    let along = trunc_div(gm * r, d);
    let once = trunc_div(along * SCALE, d);
    trunc_div(once * SCALE, d)
}

/// The acceleration that a body of mass `mass` causes at displacement `r`
/// (pointing from the attracted body to the attracting one), under the
/// gravitational constant `g`.
pub open spec fn acceleration_from(g: Fixed, mass: Fixed, r: Vector3) -> Vector3 {
    let gm = g.times(mass).raw as int;
    let d = softened_distance(r);
    Vector3 {
        x: Fixed::of(pull(gm, r.x.raw as int, d)),
        y: Fixed::of(pull(gm, r.y.raw as int, d)),
        z: Fixed::of(pull(gm, r.z.raw as int, d)),
    }
}

/// The acceleration that body `l` causes on body `k`.
pub open spec fn contribution(bodies: Seq<Body>, g: Fixed, k: int, l: int) -> Vector3 {
    acceleration_from(g, bodies[l].mass, bodies[l].position.minus(bodies[k].position))
}

/// The exact sum, component by component and in raw units, of what the
/// bodies before index `upto`, other than `k` itself, contribute to the
/// acceleration of body `k`.
pub open spec fn pull_sum(bodies: Seq<Body>, g: Fixed, k: int, upto: int) -> (int, int, int)
    decreases upto,
{
    if upto <= 0 {
        (0, 0, 0)
    } else {
        let rest = pull_sum(bodies, g, k, upto - 1);
        if upto - 1 == k {
            rest
        } else {
            let c = contribution(bodies, g, k, upto - 1);
            (rest.0 + c.x.raw, rest.1 + c.y.raw, rest.2 + c.z.raw)
        }
    }
}

/// The net acceleration of body `k`: the exact sum of the contributions of
/// all other bodies, saturated once at the end.
pub open spec fn net_acceleration(bodies: Seq<Body>, g: Fixed, k: int) -> Vector3 {
    let total = pull_sum(bodies, g, k, bodies.len() as int);
    Vector3 { x: Fixed::of(total.0), y: Fixed::of(total.1), z: Fixed::of(total.2) }
}

/// The net acceleration of every body, all taken from the same positions.
pub open spec fn accelerations(bodies: Seq<Body>, g: Fixed) -> Seq<Vector3> {
    Seq::new(bodies.len(), |k: int| net_acceleration(bodies, g, k))
}

/// The softened distance is at least the softening length and at least the
/// magnitude of every component of the displacement.
pub proof fn lemma_softened_distance_bounds(r: Vector3)
    ensures
        is_int_sqrt(softened_square(r), softened_distance(r)),
        softened_distance(r) >= SOFTENING,
        softened_distance(r) >= abs(r.x.raw as int),
        softened_distance(r) >= abs(r.y.raw as int),
        softened_distance(r) >= abs(r.z.raw as int),
{
    let x = r.x.raw as int;
    let y = r.y.raw as int;
    let z = r.z.raw as int;
    let e = SOFTENING as int;
    let n = softened_square(r);
    assert(x * x >= 0 && y * y >= 0 && z * z >= 0 && e * e >= 0) by (nonlinear_arith);
    assert(abs(x) * abs(x) == x * x) by (nonlinear_arith);
    assert(abs(y) * abs(y) == y * y) by (nonlinear_arith);
    assert(abs(z) * abs(z) == z * z) by (nonlinear_arith);
    lemma_int_sqrt_exists(n);
    lemma_int_sqrt_at_least(n, e);
    lemma_int_sqrt_at_least(n, abs(x));
    lemma_int_sqrt_at_least(n, abs(y));
    lemma_int_sqrt_at_least(n, abs(z));
}

/// Measures the softened length of `r`.
pub fn compute_softened_distance(r: Vector3) -> (d: u64)
    ensures
        d == softened_distance(r),
{
    let x: i128 = r.x.raw as i128;
    let y: i128 = r.y.raw as i128;
    let z: i128 = r.z.raw as i128;
    assert(0 <= x * x <= 0x4000_0000_0000_0000_0000_0000_0000_0000) by (nonlinear_arith)
        requires
            -0x8000_0000_0000_0000 <= x <= 0x7fff_ffff_ffff_ffff,
    ;
    assert(0 <= y * y <= 0x4000_0000_0000_0000_0000_0000_0000_0000) by (nonlinear_arith)
        requires
            -0x8000_0000_0000_0000 <= y <= 0x7fff_ffff_ffff_ffff,
    ;
    assert(0 <= z * z <= 0x4000_0000_0000_0000_0000_0000_0000_0000) by (nonlinear_arith)
        requires
            -0x8000_0000_0000_0000 <= z <= 0x7fff_ffff_ffff_ffff,
    ;
    let xx: u128 = (x * x) as u128;
    let yy: u128 = (y * y) as u128;
    let zz: u128 = (z * z) as u128;
    let ee: u128 = (SOFTENING as u128) * (SOFTENING as u128);
    isqrt(xx + yy + zz + ee)
}

/// One saturated component of the acceleration; see [`pull`]. With `d` at
/// least the softening length and `r` no longer than `d`, no intermediate
/// result leaves 128 bits.
fn compute_pull(gm: i64, r: i64, d: u64) -> (a: Fixed)
    requires
        d >= SOFTENING,
        abs(r as int) <= d,
    ensures
        a == Fixed::of(pull(gm as int, r as int, d as int)),
{
    let wide_d: i128 = d as i128;
    proof {
        let g: int = gm as int;
        let dd: int = d as int;
        let top: int = 0x8000_0000_0000_0000;
        assert(abs(g * r) <= abs(g) * dd) by (nonlinear_arith)
            requires
                abs(r as int) <= dd,
        ;
        assert(abs(g * r) <= top * top) by (nonlinear_arith)
            requires
                abs(g) <= top,
                abs(r as int) <= top,
        ;
        lemma_trunc_div_bound(g * r, dd, abs(g));
        let along: int = trunc_div(g * r, dd);
        assert(abs(along * SCALE) <= (top * 1000) * dd) by (nonlinear_arith)
            requires
                abs(along) <= top,
                top >= 0,
                SCALE == 1_000_000_000_000,
                dd >= 1_000_000_000,
        ;
        lemma_trunc_div_bound(along * SCALE, dd, top * 1000);
        let once: int = trunc_div(along * SCALE, dd);
        assert(abs(once * SCALE) <= (top * 1_000_000) * dd) by (nonlinear_arith)
            requires
                abs(once) <= top * 1000,
                top >= 0,
                SCALE == 1_000_000_000_000,
                dd >= 1_000_000_000,
        ;
        lemma_trunc_div_bound(once * SCALE, dd, top * 1_000_000);
    }
    let along: i128 = ((gm as i128) * (r as i128)) / wide_d;
    let once: i128 = (along * (SCALE as i128)) / wide_d;
    let twice: i128 = (once * (SCALE as i128)) / wide_d;
    Fixed { raw: saturate(twice) }
}

/// The acceleration for a displacement `r` whose softened length `d` is
/// already known, given the product `gm` of constant and attracting mass.
fn pull_vector(gm: Fixed, r: Vector3, d: u64) -> (a: Vector3)
    requires
        d == softened_distance(r),
    ensures
        a == (Vector3 {
            x: Fixed::of(pull(gm.raw as int, r.x.raw as int, d as int)),
            y: Fixed::of(pull(gm.raw as int, r.y.raw as int, d as int)),
            z: Fixed::of(pull(gm.raw as int, r.z.raw as int, d as int)),
        }),
{
    proof {
        lemma_softened_distance_bounds(r);
    }
    Vector3 {
        x: compute_pull(gm.raw, r.x.raw, d),
        y: compute_pull(gm.raw, r.y.raw, d),
        z: compute_pull(gm.raw, r.z.raw, d),
    }
}

/// The acceleration that a body of mass `mass` causes at displacement `r`
/// under the gravitational constant `g`.
pub fn pair_acceleration(g: Fixed, mass: Fixed, r: Vector3) -> (a: Vector3)
    ensures
        a == acceleration_from(g, mass, r),
{
    let d: u64 = compute_softened_distance(r);
    pull_vector(g.saturating_mul(mass), r, d)
}

/// Reaction: the pull along a reversed displacement is the exact opposite,
/// component by component.
pub proof fn lemma_reaction(g: Fixed, mass: Fixed, a: Vector3, b: Vector3)
    ensures
        acceleration_from(g, mass, a.minus(b)).x.raw == -acceleration_from(
            g,
            mass,
            b.minus(a),
        ).x.raw,
        acceleration_from(g, mass, a.minus(b)).y.raw == -acceleration_from(
            g,
            mass,
            b.minus(a),
        ).y.raw,
        acceleration_from(g, mass, a.minus(b)).z.raw == -acceleration_from(
            g,
            mass,
            b.minus(a),
        ).z.raw,
{
    let r: Vector3 = a.minus(b);
    let s: Vector3 = b.minus(a);
    let gm: int = g.times(mass).raw as int;
    assert(s.x.raw == -r.x.raw && s.y.raw == -r.y.raw && s.z.raw == -r.z.raw);
    assert(softened_square(s) == softened_square(r)) by (nonlinear_arith)
        requires
            s.x.raw == -r.x.raw,
            s.y.raw == -r.y.raw,
            s.z.raw == -r.z.raw,
            softened_square(s) == s.x.raw * s.x.raw + s.y.raw * s.y.raw + s.z.raw * s.z.raw
                + SOFTENING * SOFTENING,
            softened_square(r) == r.x.raw * r.x.raw + r.y.raw * r.y.raw + r.z.raw * r.z.raw
                + SOFTENING * SOFTENING,
    ;
    lemma_softened_distance_bounds(r);
    let d: int = softened_distance(r);
    lemma_pull_odd(gm, r.x.raw as int, d);
    lemma_pull_odd(gm, r.y.raw as int, d);
    lemma_pull_odd(gm, r.z.raw as int, d);
    lemma_saturated_odd(pull(gm, r.x.raw as int, d));
    lemma_saturated_odd(pull(gm, r.y.raw as int, d));
    lemma_saturated_odd(pull(gm, r.z.raw as int, d));
}

/// The pull is odd in the displacement component.
pub proof fn lemma_pull_odd(gm: int, r: int, d: int)
    requires
        d > 0,
    ensures
        pull(gm, -r, d) == -pull(gm, r, d),
{
    assert(gm * (-r) == -(gm * r)) by (nonlinear_arith);
    lemma_trunc_div_odd(gm * r, d);
    let along: int = trunc_div(gm * r, d);
    assert((-along) * SCALE == -(along * SCALE)) by (nonlinear_arith);
    lemma_trunc_div_odd(along * SCALE, d);
    let once: int = trunc_div(along * SCALE, d);
    assert((-once) * SCALE == -(once * SCALE)) by (nonlinear_arith);
    lemma_trunc_div_odd(once * SCALE, d);
}

/// The sum of fewer than `upto` saturated contributions stays within `upto`
/// times the saturation limit.
pub proof fn lemma_pull_sum_bound(bodies: Seq<Body>, g: Fixed, k: int, upto: int)
    requires
        0 <= upto,
    ensures
        abs(pull_sum(bodies, g, k, upto).0) <= upto * LIMIT,
        abs(pull_sum(bodies, g, k, upto).1) <= upto * LIMIT,
        abs(pull_sum(bodies, g, k, upto).2) <= upto * LIMIT,
    decreases upto,
{
    if upto > 0 {
        lemma_pull_sum_bound(bodies, g, k, upto - 1);
        assert(upto * LIMIT == (upto - 1) * LIMIT + LIMIT) by (nonlinear_arith);
    }
}

/// The magnitude of a pull is at most `|gm| * (SCALE / SOFTENING)^2`,
/// whatever the displacement, and a displacement of zero pulls nothing.
pub proof fn lemma_pull_bound(gm: int, r: int, d: int)
    requires
        d >= SOFTENING,
        abs(r) <= d,
    ensures
        abs(pull(gm, r, d)) * SOFTENING * SOFTENING <= abs(gm) * SCALE * SCALE,
        r == 0 ==> pull(gm, r, d) == 0,
{
    let s: int = SCALE as int;
    let e: int = SOFTENING as int;
    let along: int = trunc_div(gm * r, d);
    let once: int = trunc_div(along * s, d);
    let twice: int = trunc_div(once * s, d);
    assert(abs(gm * r) <= abs(gm) * d) by (nonlinear_arith)
        requires
            abs(r) <= d,
    ;
    lemma_trunc_div_bound(gm * r, d, abs(gm));
    lemma_trunc_div_remainder(along * s, d);
    lemma_trunc_div_remainder(once * s, d);
    assert(abs(once) * d <= abs(along) * s) by (nonlinear_arith)
        requires
            abs(along * s - once * d) < d,
            along * s >= 0 ==> 0 <= once * d <= along * s,
            along * s <= 0 ==> along * s <= once * d <= 0,
            d > 0,
            s > 0,
    ;
    assert(abs(twice) * d <= abs(once) * s) by (nonlinear_arith)
        requires
            abs(once * s - twice * d) < d,
            once * s >= 0 ==> 0 <= twice * d <= once * s,
            once * s <= 0 ==> once * s <= twice * d <= 0,
            d > 0,
            s > 0,
    ;
    assert(abs(once) * e <= abs(along) * s) by (nonlinear_arith)
        requires
            abs(once) * d <= abs(along) * s,
            0 < e <= d,
    ;
    assert(abs(twice) * e <= abs(once) * s) by (nonlinear_arith)
        requires
            abs(twice) * d <= abs(once) * s,
            0 < e <= d,
    ;
    assert(abs(twice) * e * e <= abs(gm) * s * s) by (nonlinear_arith)
        requires
            abs(twice) * e <= abs(once) * s,
            abs(once) * e <= abs(along) * s,
            abs(along) <= abs(gm),
            e > 0,
            s > 0,
    ;
    if r == 0 {
        assert(gm * r == 0) by (nonlinear_arith)
            requires
                r == 0,
        ;
        assert(0int / d == 0) by (nonlinear_arith)
            requires
                d > 0,
        ;
        assert(along == 0);
        assert(along * s == 0) by (nonlinear_arith)
            requires
                along == 0,
        ;
        assert(once == 0);
        assert(once * s == 0) by (nonlinear_arith)
            requires
                once == 0,
        ;
    }
}

/// Softening bound: no component of the acceleration that a body of mass
/// `mass` causes exceeds `|g * mass| / softening^2`, however close the two
/// bodies are. The bound depends on the constant, the mass and the softening
/// length alone.
pub proof fn lemma_softening_bound(g: Fixed, mass: Fixed, r: Vector3)
    ensures
        ({
            let a = acceleration_from(g, mass, r);
            let ceiling = abs(g.times(mass).raw as int) * SCALE * SCALE;
            &&& abs(a.x.raw as int) * SOFTENING * SOFTENING <= ceiling
            &&& abs(a.y.raw as int) * SOFTENING * SOFTENING <= ceiling
            &&& abs(a.z.raw as int) * SOFTENING * SOFTENING <= ceiling
        }),
{
    let gm: int = g.times(mass).raw as int;
    let d: int = softened_distance(r);
    lemma_softened_distance_bounds(r);
    lemma_pull_bound(gm, r.x.raw as int, d);
    lemma_pull_bound(gm, r.y.raw as int, d);
    lemma_pull_bound(gm, r.z.raw as int, d);
    lemma_saturated_shrinks(pull(gm, r.x.raw as int, d), SOFTENING * SOFTENING);
    lemma_saturated_shrinks(pull(gm, r.y.raw as int, d), SOFTENING * SOFTENING);
    lemma_saturated_shrinks(pull(gm, r.z.raw as int, d), SOFTENING * SOFTENING);
    assert(forall|v: int| abs(v) * SOFTENING * SOFTENING == abs(v) * (SOFTENING * SOFTENING))
        by (nonlinear_arith);
}

/// Two bodies at the same place do not accelerate each other.
pub proof fn lemma_coincident_bodies_do_not_pull(g: Fixed, mass: Fixed, place: Vector3)
    ensures
        acceleration_from(g, mass, place.minus(place)).x.raw == 0,
        acceleration_from(g, mass, place.minus(place)).y.raw == 0,
        acceleration_from(g, mass, place.minus(place)).z.raw == 0,
{
    let r: Vector3 = place.minus(place);
    let gm: int = g.times(mass).raw as int;
    lemma_softened_distance_bounds(r);
    lemma_pull_bound(gm, 0, softened_distance(r));
}

/// The sum, over the bodies before index `upto` other than `k` itself, of
/// the magnitude of constant times mass, in raw units.
pub open spec fn pull_ceiling(bodies: Seq<Body>, g: Fixed, k: int, upto: int) -> int
    decreases upto,
{
    if upto <= 0 {
        0
    } else if upto - 1 == k {
        pull_ceiling(bodies, g, k, upto - 1)
    } else {
        pull_ceiling(bodies, g, k, upto - 1) + abs(g.times(bodies[upto - 1].mass).raw as int)
    }
}

proof fn lemma_pull_sum_ceiling(bodies: Seq<Body>, g: Fixed, k: int, upto: int)
    requires
        0 <= upto <= bodies.len(),
        0 <= k < bodies.len(),
    ensures
        abs(pull_sum(bodies, g, k, upto).0) * (SOFTENING * SOFTENING) <= pull_ceiling(
            bodies,
            g,
            k,
            upto,
        ) * (SCALE * SCALE),
        abs(pull_sum(bodies, g, k, upto).1) * (SOFTENING * SOFTENING) <= pull_ceiling(
            bodies,
            g,
            k,
            upto,
        ) * (SCALE * SCALE),
        abs(pull_sum(bodies, g, k, upto).2) * (SOFTENING * SOFTENING) <= pull_ceiling(
            bodies,
            g,
            k,
            upto,
        ) * (SCALE * SCALE),
    decreases upto,
{
    let e2: int = SOFTENING * SOFTENING;
    let s2: int = SCALE * SCALE;
    assert(e2 >= 0 && 0 * e2 == 0 && 0 * s2 == 0) by (nonlinear_arith)
        requires
            e2 == SOFTENING * SOFTENING,
    ;
    if upto > 0 {
        lemma_pull_sum_ceiling(bodies, g, k, upto - 1);
        if upto - 1 != k {
            let rest = pull_sum(bodies, g, k, upto - 1);
            let c: Vector3 = contribution(bodies, g, k, upto - 1);
            let gm: int = abs(g.times(bodies[upto - 1].mass).raw as int);
            let before: int = pull_ceiling(bodies, g, k, upto - 1);
            lemma_softening_bound(
                g,
                bodies[upto - 1].mass,
                bodies[upto - 1].position.minus(bodies[k].position),
            );
            lemma_weighted_sum(rest.0, c.x.raw as int, before, gm);
            lemma_weighted_sum(rest.1, c.y.raw as int, before, gm);
            lemma_weighted_sum(rest.2, c.z.raw as int, before, gm);
        }
    } else {
        assert(pull_sum(bodies, g, k, upto) == (0int, 0int, 0int));
        assert(pull_ceiling(bodies, g, k, upto) == 0);
    }
}

/// Adds one bounded term to a bounded sum.
proof fn lemma_weighted_sum(a: int, b: int, p: int, q: int)
    requires
        abs(a) * (SOFTENING * SOFTENING) <= p * (SCALE * SCALE),
        abs(b) * SOFTENING * SOFTENING <= q * SCALE * SCALE,
    ensures
        abs(a + b) * (SOFTENING * SOFTENING) <= (p + q) * (SCALE * SCALE),
{
    let w: int = SOFTENING * SOFTENING;
    let v: int = SCALE * SCALE;
    assert(abs(b) * SOFTENING * SOFTENING == abs(b) * w) by (nonlinear_arith)
        requires
            w == SOFTENING * SOFTENING,
    ;
    assert(q * SCALE * SCALE == q * v) by (nonlinear_arith)
        requires
            v == SCALE * SCALE,
    ;
    assert(abs(a + b) * w <= abs(a) * w + abs(b) * w) by (nonlinear_arith)
        requires
            w == SOFTENING * SOFTENING,
            abs(a + b) <= abs(a) + abs(b),
    ;
    assert((p + q) * v == p * v + q * v) by (nonlinear_arith);
}

/// Bounded acceleration: no component of the net acceleration of body `k`
/// exceeds the sum of `|g * mass| / softening^2` over the other bodies,
/// wherever the bodies are.
pub proof fn lemma_net_acceleration_bound(bodies: Seq<Body>, g: Fixed, k: int)
    requires
        0 <= k < bodies.len(),
    ensures
        ({
            let a = net_acceleration(bodies, g, k);
            let ceiling = pull_ceiling(bodies, g, k, bodies.len() as int) * (SCALE * SCALE);
            &&& abs(a.x.raw as int) * (SOFTENING * SOFTENING) <= ceiling
            &&& abs(a.y.raw as int) * (SOFTENING * SOFTENING) <= ceiling
            &&& abs(a.z.raw as int) * (SOFTENING * SOFTENING) <= ceiling
        }),
{
    let total = pull_sum(bodies, g, k, bodies.len() as int);
    lemma_pull_sum_ceiling(bodies, g, k, bodies.len() as int);
    assert(SOFTENING * SOFTENING >= 0) by (nonlinear_arith);
    lemma_saturated_shrinks(total.0, SOFTENING * SOFTENING);
    lemma_saturated_shrinks(total.1, SOFTENING * SOFTENING);
    lemma_saturated_shrinks(total.2, SOFTENING * SOFTENING);
}

/// How far the pair loop has come for body `k` when it stands at the pair
/// `(i, j)` among `n` bodies: the sum for `k` covers the bodies before this
/// index.
spec fn progress(k: int, i: int, j: int, n: int) -> int {
    if k < i {
        n
    } else if k == i {
        j
    } else if k < j {
        i + 1
    } else {
        i
    }
}

/// Exact running sums for one body.
#[derive(Clone, Copy)]
struct Tally {
    x: i128,
    y: i128,
    z: i128,
}

spec fn tally_is(t: Tally, total: (int, int, int)) -> bool {
    t.x == total.0 && t.y == total.1 && t.z == total.2
}

/// The net acceleration of every body under the gravitational constant `g`.
///
/// Each unordered pair is visited once and serves both of its bodies. All
/// positions are read from the store as it stands; nothing is written to it.
pub fn compute_accelerations(store: &BodyStore, g: Fixed) -> (result: Vec<Vector3>)
    ensures
        result@ == accelerations(store@, g),
{
    let bodies: &Vec<Body> = store.bodies();
    let n: usize = bodies.len();
    let mut tally: Vec<Tally> = Vec::new();
    let mut k: usize = 0;
    while k < n
        invariant
            k <= n,
            tally.len() == k,
            forall|t: int| 0 <= t < k ==> tally_is(#[trigger] tally[t], (0, 0, 0)),
        decreases n - k,
    {
        tally.push(Tally { x: 0, y: 0, z: 0 });
        k += 1;
    }
    let mut i: usize = 0;
    while i < n
        invariant
            i <= n,
            n == bodies.len(),
            tally.len() == n,
            forall|t: int|
                0 <= t < n ==> tally_is(
                    #[trigger] tally[t],
                    pull_sum(bodies@, g, t, progress(t, i as int, i as int, n as int)),
                ),
        decreases n - i,
    {
        let mut j: usize = i + 1;
        while j < n
            invariant
                i < j <= n,
                n == bodies.len(),
                tally.len() == n,
                forall|t: int|
                    0 <= t < n ==> tally_is(
                        #[trigger] tally[t],
                        pull_sum(bodies@, g, t, progress(t, i as int, j as int, n as int)),
                    ),
            decreases n - j,
        {
            let r: Vector3 = bodies[j].position.saturating_sub(bodies[i].position);
            let d: u64 = compute_softened_distance(r);
            let on_i: Vector3 = pull_vector(g.saturating_mul(bodies[j].mass), r, d);
            let on_j: Vector3 = pull_vector(g.saturating_mul(bodies[i].mass), r, d);
            let at_i: Tally = tally[i];
            let at_j: Tally = tally[j];
            proof {
                lemma_reaction(
                    g,
                    bodies[i as int].mass,
                    bodies[i as int].position,
                    bodies[j as int].position,
                );
                assert(on_i == contribution(bodies@, g, i as int, j as int));
                assert(on_j.x.raw == -contribution(bodies@, g, j as int, i as int).x.raw);
                assert(on_j.y.raw == -contribution(bodies@, g, j as int, i as int).y.raw);
                assert(on_j.z.raw == -contribution(bodies@, g, j as int, i as int).z.raw);
                lemma_pull_sum_bound(bodies@, g, i as int, j + 1);
                lemma_pull_sum_bound(bodies@, g, j as int, i + 1);
                lemma_within_wide(j + 1);
                lemma_within_wide(i + 1);
            }
            tally[i] = Tally {
                x: at_i.x + on_i.x.raw as i128,
                y: at_i.y + on_i.y.raw as i128,
                z: at_i.z + on_i.z.raw as i128,
            };
            tally[j] = Tally {
                x: at_j.x - on_j.x.raw as i128,
                y: at_j.y - on_j.y.raw as i128,
                z: at_j.z - on_j.z.raw as i128,
            };
            j += 1;
        }
        i += 1;
    }
    let mut result: Vec<Vector3> = Vec::new();
    let mut k: usize = 0;
    while k < n
        invariant
            k <= n,
            n == bodies.len(),
            tally.len() == n,
            result.len() == k,
            forall|t: int|
                0 <= t < n ==> tally_is(
                    #[trigger] tally[t],
                    pull_sum(bodies@, g, t, n as int),
                ),
            forall|t: int| 0 <= t < k ==> #[trigger] result[t] == net_acceleration(bodies@, g, t),
        decreases n - k,
    {
        let total: Tally = tally[k];
        result.push(
            Vector3 {
                x: Fixed { raw: saturate(total.x) },
                y: Fixed { raw: saturate(total.y) },
                z: Fixed { raw: saturate(total.z) },
            },
        );
        k += 1;
    }
    assert(result@ =~= accelerations(store@, g));
    result
}

/// A count of at most 2^64 saturated terms sums to a value that fits 128 bits.
proof fn lemma_within_wide(count: int)
    ensures
        0 <= count <= 0xffff_ffff_ffff_ffff ==> count * LIMIT
            <= 0x7fff_ffff_ffff_ffff_ffff_ffff_ffff_ffff,
{
    if 0 <= count <= 0xffff_ffff_ffff_ffff {
        assert(count * LIMIT <= 0xffff_ffff_ffff_ffff * 0x7fff_ffff_ffff_ffff) by (nonlinear_arith)
            requires
                0 <= count <= 0xffff_ffff_ffff_ffff,
                LIMIT == 0x7fff_ffff_ffff_ffff,
        ;
    }
}

} // verus!
