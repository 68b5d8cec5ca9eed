//! The body store: the authoritative state of every simulated body.

use crate::body::{Body, BodyId, InvalidBodyError};
use crate::fixed::Fixed;
use crate::vector::Vector3;
use vstd::prelude::*;

verus! {

/// Holds the bodies in creation order. Bodies are never removed, and every
/// stored mass is strictly positive.
pub struct BodyStore {
    bodies: Vec<Body>,
}

impl View for BodyStore {
    type V = Seq<Body>;

    /// The bodies in creation order.
    closed spec fn view(&self) -> Seq<Body> {
        self.bodies@
    }
}

/// Every mass in `bodies` is strictly positive.
pub open spec fn masses_positive(bodies: Seq<Body>) -> bool {
    forall|i: int| 0 <= i < bodies.len() ==> (#[trigger] bodies[i]).mass.raw > 0
}

impl BodyStore {
    #[verifier::type_invariant]
    spec fn well_formed(self) -> bool {
        masses_positive(self.bodies@)
    }

    /// An empty store.
    pub fn new() -> (store: BodyStore)
        ensures
            store@ == Seq::<Body>::empty(),
    {
        BodyStore { bodies: Vec::new() }
    }

    /// The number of bodies.
    pub fn len(&self) -> (n: usize)
        ensures
            n == self@.len(),
    {
        self.bodies.len()
    }

    /// Adds a body and names it, or rejects a mass that is not strictly
    /// positive and leaves the store as it was.
    pub fn create_body(&mut self, mass: Fixed, position: Vector3, velocity: Vector3) -> (r: Result<
        BodyId,
        InvalidBodyError,
    >)
        ensures
            mass.raw > 0 ==> r == Ok::<BodyId, InvalidBodyError>(
                BodyId { index: old(self)@.len() as usize },
            ) && final(self)@ == old(self)@.push(Body { mass, position, velocity }),
            mass.raw <= 0 ==> r == Err::<BodyId, InvalidBodyError>(InvalidBodyError {  })
                && final(self)@ == old(self)@,
    {
        if !mass.is_positive() {
            return Err(InvalidBodyError {  });
        }
        proof {
            use_type_invariant(&*self);
        }
        let mut bodies: Vec<Body> = Vec::new();
        core::mem::swap(&mut bodies, &mut self.bodies);
        let index: usize = bodies.len();
        bodies.push(Body { mass, position, velocity });
        self.bodies = bodies;
        Ok(BodyId { index })
    }

    /// All bodies in creation order.
    pub fn bodies(&self) -> (all: &Vec<Body>)
        ensures
            all@ == self@,
            masses_positive(all@),
    {
        proof {
            use_type_invariant(self);
        }
        &self.bodies
    }

    /// The body that `id` names, if the store holds it.
    pub fn get(&self, id: BodyId) -> (r: Option<Body>)
        ensures
            id.index < self@.len() ==> r == Some(self@[id.index as int]),
            id.index >= self@.len() ==> r.is_none(),
            masses_positive(self@),
    {
        proof {
            use_type_invariant(self);
        }
        if id.index < self.bodies.len() {
            Some(self.bodies[id.index])
        } else {
            None
        }
    }

    /// Replaces the position and velocity of the body that `id` names and keeps
    /// its mass. Returns whether the store holds such a body; if not, nothing
    /// changes.
    pub fn set_motion(&mut self, id: BodyId, position: Vector3, velocity: Vector3) -> (done: bool)
        ensures
            done == (id.index < old(self)@.len()),
            done ==> final(self)@ == old(self)@.update(
                id.index as int,
                Body { mass: old(self)@[id.index as int].mass, position, velocity },
            ),
            !done ==> final(self)@ == old(self)@,
    {
        proof {
            use_type_invariant(&*self);
        }
        if id.index < self.bodies.len() {
            let mut bodies: Vec<Body> = Vec::new();
            core::mem::swap(&mut bodies, &mut self.bodies);
            let mass: Fixed = bodies[id.index].mass;
            bodies[id.index] = Body { mass, position, velocity };
            self.bodies = bodies;
            true
        } else {
            false
        }
    }
}

} // verus!
