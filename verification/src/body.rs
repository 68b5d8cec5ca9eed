//! Point masses and the values that name or reject them.

use crate::fixed::Fixed;
use crate::vector::Vector3;
use vstd::prelude::*;

verus! {

/// A point mass with its position and velocity.
#[derive(Clone, Copy, Debug, PartialEq, Eq, Structural)]
pub struct Body {
    pub mass: Fixed,
    pub position: Vector3,
    pub velocity: Vector3,
}

/// Names a body by the order in which the store received it.
#[derive(Clone, Copy, Debug, PartialEq, Eq, Structural)]
pub struct BodyId {
    pub index: usize,
}

/// A body was offered with a mass that is not strictly positive.
#[derive(Clone, Copy, Debug, PartialEq, Eq, Structural)]
pub struct InvalidBodyError {}

/// A step was asked for before the gravitational constant was set.
#[derive(Clone, Copy, Debug, PartialEq, Eq, Structural)]
pub struct UninitializedGravityError {}

} // verus!
