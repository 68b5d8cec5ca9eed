//! The integrator: one semi-implicit Euler step for every body.

use crate::body::{Body, BodyId};
use crate::fixed::Fixed;
use crate::store::BodyStore;
use crate::vector::Vector3;
use vstd::prelude::*;

verus! {

/// A body after one step of length `dt` under `acceleration`: the velocity
/// is advanced first, and the position then moves with the new velocity.
pub open spec fn advanced(body: Body, acceleration: Vector3, dt: Fixed) -> Body {
    let velocity = body.velocity.plus(acceleration.scaled(dt));
    Body { mass: body.mass, position: body.position.plus(velocity.scaled(dt)), velocity }
}

/// All bodies after one step of length `dt`, body `k` under
/// `accelerations[k]`. A step that is not strictly positive changes nothing.
pub open spec fn stepped(bodies: Seq<Body>, accelerations: Seq<Vector3>, dt: Fixed) -> Seq<Body> {
    if dt.raw <= 0 {
        bodies
    } else {
        Seq::new(bodies.len(), |k: int| advanced(bodies[k], accelerations[k], dt))
    }
}

/// Advances every body in `store` by `effective_dt`, body `k` under
/// `accelerations[k]`. Masses stay as they are, and a step that is not
/// strictly positive leaves the store untouched.
pub fn step(store: &mut BodyStore, accelerations: &Vec<Vector3>, effective_dt: Fixed)
    requires
        accelerations.len() == old(store)@.len(),
    ensures
        final(store)@ == stepped(old(store)@, accelerations@, effective_dt),
{
    if !effective_dt.is_positive() {
        return ;
    }
    let ghost before: Seq<Body> = store@;
    let n: usize = store.len();
    let mut k: usize = 0;
    while k < n
        invariant
            k <= n,
            n == before.len(),
            n == accelerations.len(),
            store@.len() == n,
            forall|t: int|
                0 <= t < k ==> #[trigger] store@[t] == advanced(
                    before[t],
                    accelerations@[t],
                    effective_dt,
                ),
            forall|t: int| k <= t < n ==> #[trigger] store@[t] == before[t],
        decreases n - k,
    {
        let id: BodyId = BodyId { index: k };
        match store.get(id) {
            Some(body) => {
                let velocity: Vector3 = body.velocity.saturating_add(
                    accelerations[k].scale(effective_dt),
                );
                let position: Vector3 = body.position.saturating_add(velocity.scale(effective_dt));
                store.set_motion(id, position, velocity);
            },
            None => {},
        }
        k += 1;
    }
    assert(store@ =~= stepped(before, accelerations@, effective_dt));
}

} // verus!
