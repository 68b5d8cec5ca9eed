//! Fixed-point N-body gravity.
//!
//! A [`driver::Simulation`] owns a set of point masses and a gravitational
//! constant. Each [`driver::Simulation::tick`] computes the net acceleration
//! of every body from the positions as they stand ([`force`]) and then
//! advances every body by one semi-implicit Euler step ([`integrator`]).
//!
//! All quantities are decimal fixed-point numbers ([`fixed::Fixed`]) whose
//! operations saturate instead of wrapping, so a step is a pure function of
//! the state before it: the same on every machine, and stated exactly in
//! the contracts of this crate. Distances are softened ([`force::SOFTENING`]),
//! which keeps accelerations bounded when bodies come close.

pub mod arith;
pub mod body;
pub mod driver;
pub mod fixed;
pub mod force;
pub mod gravity;
pub mod integrator;
pub mod newton;
pub mod scene;
pub mod store;
pub mod vector;
