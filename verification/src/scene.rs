//! The Solar system as a ready-made simulation.
//!
//! Masses are in 10^24 kg, lengths in tenths of an astronomical unit and times
//! in days.

use crate::body::Body;
use crate::driver::Simulation;
use crate::fixed::{Fixed, MILLI, SCALE};
use crate::vector::Vector3;
use vstd::prelude::*;

verus! {

/// Simulation lengths per astronomical unit.
pub const UNITS_PER_AU: i64 = 10;

/// Newton's constant in m^3 / kg / day^2, in raw units: 6.6743e-11 times the
/// square of the 86 400 seconds of a day.
pub const NEWTON_PER_DAY_SQUARED: i64 = 498_233_825_280;

/// What turns m^3 / kg into cubed simulation lengths per simulation mass, in
/// raw units: 10^24 kg over the cube of 1.5e10 m.
pub const CUBIC_LENGTHS_PER_MASS: i64 = 296_296;

/// A length or speed given in thousandths of an astronomical unit (per day),
/// in simulation lengths.
pub open spec fn from_au(thousandths: int) -> Fixed {
    Fixed::of(thousandths * MILLI).times(Fixed::of(UNITS_PER_AU * SCALE))
}

/// The body whose mass, position and velocity are given in thousandths of
/// 10^24 kg, of an astronomical unit and of an astronomical unit per day.
pub open spec fn planet(mass: int, position: (int, int, int), velocity: (int, int, int)) -> Body {
    Body {
        mass: Fixed::of(mass * MILLI),
        position: Vector3 {
            x: from_au(position.0),
            y: from_au(position.1),
            z: from_au(position.2),
        },
        velocity: Vector3 {
            x: from_au(velocity.0),
            y: from_au(velocity.1),
            z: from_au(velocity.2),
        },
    }
}

/// The Sun, the eight planets and Pluto, with positions and velocities as
/// published by JPL Horizons for 2021-04-18.
pub open spec fn solar_bodies() -> Seq<Body> {
    seq![
        planet(1_988_500_000, (0, 0, 0), (0, 0, 0)),
        planet(330, (3_044, 130, -17), (-16, 27, 4)),
        planet(4_868, (539, 482, -24), (-14, 15, 1)),
        planet(5_972, (-887, -470, 0), (8, -15, 0)),
        planet(642, (-767, 1_438, 49), (-12, -5, 0)),
        planet(1_898_187, (3_638, -3_517, -67), (5, 6, 0)),
        planet(568_340, (5_947, -8_001, -98), (4, 3, 0)),
        planet(86_813, (15_079, 12_767, -148), (-3, 3, 0)),
        planet(102_413, (29_516, -4_898, -579), (1, 3, 0)),
        planet(13, (14_375, -31_090, -830), (3, 1, -1)),
    ]
}

/// The gravitational constant of the Solar system scene.
pub open spec fn solar_gravity() -> Fixed {
    Fixed::of(NEWTON_PER_DAY_SQUARED as int).times(Fixed::of(CUBIC_LENGTHS_PER_MASS as int))
}

fn au(thousandths: i64) -> (r: Fixed)
    ensures
        r == from_au(thousandths as int),
{
    Fixed::from_millis(thousandths).saturating_mul(Fixed::from_int(UNITS_PER_AU))
}

fn spawn_planet(
    sim: &mut Simulation,
    mass: i64,
    position: (i64, i64, i64),
    velocity: (i64, i64, i64),
)
    requires
        mass > 0,
    ensures
        final(sim)@.gravity == old(sim)@.gravity,
        final(sim)@.bodies == old(sim)@.bodies.push(
            planet(
                mass as int,
                (position.0 as int, position.1 as int, position.2 as int),
                (velocity.0 as int, velocity.1 as int, velocity.2 as int),
            ),
        ),
{
    assert(mass * MILLI > 0) by (nonlinear_arith)
        requires
            mass > 0,
            MILLI == 1_000_000_000,
    ;
    let place: Vector3 = Vector3::new(au(position.0), au(position.1), au(position.2));
    let motion: Vector3 = Vector3::new(au(velocity.0), au(velocity.1), au(velocity.2));
    let _ = sim.create_body(Fixed::from_millis(mass), place, motion);
}

/// Builds the Solar system: sets the gravitational constant in the units of
/// the scene and adds the Sun, the eight planets and Pluto, in that order.
pub fn solar_system() -> (sim: Simulation)
    ensures
        sim@.bodies == solar_bodies(),
        sim@.gravity == Some(solar_gravity()),
{
    let mut sim: Simulation = Simulation::new();
    sim.set_gravity_constant(
        Fixed::from_raw(NEWTON_PER_DAY_SQUARED),
        Fixed::from_raw(CUBIC_LENGTHS_PER_MASS),
    );
    spawn_planet(&mut sim, 1_988_500_000, (0, 0, 0), (0, 0, 0));
    spawn_planet(&mut sim, 330, (3_044, 130, -17), (-16, 27, 4));
    spawn_planet(&mut sim, 4_868, (539, 482, -24), (-14, 15, 1));
    spawn_planet(&mut sim, 5_972, (-887, -470, 0), (8, -15, 0));
    spawn_planet(&mut sim, 642, (-767, 1_438, 49), (-12, -5, 0));
    spawn_planet(&mut sim, 1_898_187, (3_638, -3_517, -67), (5, 6, 0));
    spawn_planet(&mut sim, 568_340, (5_947, -8_001, -98), (4, 3, 0));
    spawn_planet(&mut sim, 86_813, (15_079, 12_767, -148), (-3, 3, 0));
    spawn_planet(&mut sim, 102_413, (29_516, -4_898, -579), (1, 3, 0));
    spawn_planet(&mut sim, 13, (14_375, -31_090, -830), (3, 1, -1));
    assert(sim@.bodies =~= solar_bodies());
    sim
}

} // verus!
