//! The simulation driver: owns the bodies and the gravitational constant and
//! advances the system by one step per tick.

use crate::body::{Body, BodyId, InvalidBodyError, UninitializedGravityError};
use crate::fixed::{lemma_times_zero, Fixed};
use crate::force::{accelerations, compute_accelerations};
use crate::gravity::GravityConstant;
use crate::integrator::{step, stepped};
use crate::store::{masses_positive, BodyStore};
use crate::vector::Vector3;
use vstd::prelude::*;

verus! {

/// What a simulation holds between ticks.
pub struct SimulationState {
    pub bodies: Seq<Body>,
    pub gravity: Option<Fixed>,
}

/// A gravitational system that is set up once and then advanced tick by tick.
pub struct Simulation {
    store: BodyStore,
    gravity: GravityConstant,
}

impl View for Simulation {
    type V = SimulationState;

    closed spec fn view(&self) -> SimulationState {
        SimulationState { bodies: self.store@, gravity: self.gravity@ }
    }
}

/// The bodies after one tick of `dt` at `speed_factor` under the constant
/// `g`: every acceleration is taken from the positions before the tick, then
/// every body is advanced by `dt * speed_factor`.
pub open spec fn ticked(bodies: Seq<Body>, g: Fixed, dt: Fixed, speed_factor: Fixed) -> Seq<Body> {
    stepped(bodies, accelerations(bodies, g), dt.times(speed_factor))
}

/// A tick neither adds nor removes a body, and it leaves every mass as it
/// was.
pub proof fn lemma_tick_keeps_masses(bodies: Seq<Body>, g: Fixed, dt: Fixed, speed_factor: Fixed)
    ensures
        ticked(bodies, g, dt, speed_factor).len() == bodies.len(),
        forall|k: int|
            0 <= k < bodies.len() ==> (#[trigger] ticked(bodies, g, dt, speed_factor)[k]).mass
                == bodies[k].mass,
        masses_positive(bodies) ==> masses_positive(ticked(bodies, g, dt, speed_factor)),
{
}

/// A tick whose time delta or speed factor is zero leaves every body where
/// it was, with the velocity it had.
pub proof fn lemma_zero_step_changes_nothing(
    bodies: Seq<Body>,
    g: Fixed,
    dt: Fixed,
    speed_factor: Fixed,
)
    requires
        dt.raw == 0 || speed_factor.raw == 0,
    ensures
        ticked(bodies, g, dt, speed_factor) == bodies,
{
    lemma_times_zero(dt, speed_factor);
}

impl Simulation {
    /// A simulation without bodies whose gravitational constant is not set.
    pub fn new() -> (sim: Simulation)
        ensures
            sim@.bodies == Seq::<Body>::empty(),
            sim@.gravity.is_none(),
    {
        Simulation { store: BodyStore::new(), gravity: GravityConstant::new() }
    }

    /// Adds a body and names it, or rejects a mass that is not strictly
    /// positive and leaves the simulation as it was.
    pub fn create_body(&mut self, mass: Fixed, position: Vector3, velocity: Vector3) -> (r: Result<
        BodyId,
        InvalidBodyError,
    >)
        ensures
            final(self)@.gravity == old(self)@.gravity,
            mass.raw > 0 ==> r == Ok::<BodyId, InvalidBodyError>(
                BodyId { index: old(self)@.bodies.len() as usize },
            ) && final(self)@.bodies == old(self)@.bodies.push(Body { mass, position, velocity }),
            mass.raw <= 0 ==> r == Err::<BodyId, InvalidBodyError>(InvalidBodyError {  })
                && final(self)@.bodies == old(self)@.bodies,
    {
        self.store.create_body(mass, position, velocity)
    }

    /// Stores the physical constant `raw` converted to the units of the
    /// simulation by `unit_scale`.
    pub fn set_gravity_constant(&mut self, raw: Fixed, unit_scale: Fixed)
        ensures
            final(self)@.gravity == Some(raw.times(unit_scale)),
            final(self)@.bodies == old(self)@.bodies,
    {
        self.gravity.set_gravity_constant(raw, unit_scale);
    }

    /// The stored constant, or an error if none has been set.
    pub fn get_gravity_constant(&self) -> (r: Result<Fixed, UninitializedGravityError>)
        ensures
            match self@.gravity {
                Some(g) => r == Ok::<Fixed, UninitializedGravityError>(g),
                None => r == Err::<Fixed, UninitializedGravityError>(
                    UninitializedGravityError {  },
                ),
            },
    {
        self.gravity.get_gravity_constant()
    }

    /// The number of bodies.
    pub fn body_count(&self) -> (n: usize)
        ensures
            n == self@.bodies.len(),
    {
        self.store.len()
    }

    /// The body that `id` names, if the simulation holds it. Every mass in the
    /// simulation is strictly positive.
    pub fn get_body(&self, id: BodyId) -> (r: Option<Body>)
        ensures
            id.index < self@.bodies.len() ==> r == Some(self@.bodies[id.index as int]),
            id.index >= self@.bodies.len() ==> r.is_none(),
            masses_positive(self@.bodies),
    {
        self.store.get(id)
    }

    /// The position of the body that `id` names, if the simulation holds it.
    pub fn get_position(&self, id: BodyId) -> (r: Option<Vector3>)
        ensures
            id.index < self@.bodies.len() ==> r == Some(self@.bodies[id.index as int].position),
            id.index >= self@.bodies.len() ==> r.is_none(),
    {
        match self.store.get(id) {
            Some(body) => Some(body.position),
            None => None,
        }
    }

    /// The velocity of the body that `id` names, if the simulation holds it.
    pub fn get_velocity(&self, id: BodyId) -> (r: Option<Vector3>)
        ensures
            id.index < self@.bodies.len() ==> r == Some(self@.bodies[id.index as int].velocity),
            id.index >= self@.bodies.len() ==> r.is_none(),
    {
        match self.store.get(id) {
            Some(body) => Some(body.velocity),
            None => None,
        }
    }

    /// Advances the system by one step of `dt * speed_factor`.
    ///
    /// Fails, changing nothing, while the gravitational constant is not set.
    /// Otherwise all accelerations are computed from the positions before the
    /// tick, and then every body is advanced once. A tick whose `dt` or
    /// `speed_factor` is zero changes nothing.
    pub fn tick(&mut self, dt: Fixed, speed_factor: Fixed) -> (r: Result<
        (),
        UninitializedGravityError,
    >)
        ensures
            final(self)@.gravity == old(self)@.gravity,
            match old(self)@.gravity {
                Some(g) => r == Ok::<(), UninitializedGravityError>(()) && final(self)@.bodies
                    == ticked(old(self)@.bodies, g, dt, speed_factor),
                None => r == Err::<(), UninitializedGravityError>(UninitializedGravityError {  })
                    && final(self)@.bodies == old(self)@.bodies,
            },
            dt.raw == 0 || speed_factor.raw == 0 ==> final(self)@ == old(self)@,
    {
        let g: Fixed = match self.gravity.get_gravity_constant() {
            Ok(g) => g,
            Err(e) => {
                return Err(e);
            },
        };
        let effective_dt: Fixed = dt.saturating_mul(speed_factor);
        proof {
            if dt.raw == 0 || speed_factor.raw == 0 {
                lemma_times_zero(dt, speed_factor);
            }
        }
        let accelerations: Vec<Vector3> = compute_accelerations(&self.store, g);
        step(&mut self.store, &accelerations, effective_dt);
        Ok(())
    }
}

} // verus!
