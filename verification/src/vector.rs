//! Three-component vectors of fixed-point scalars.

use crate::fixed::Fixed;
use vstd::prelude::*;

verus! {

/// A vector in space; every operation works component by component.
#[derive(Clone, Copy, Debug, PartialEq, Eq, Structural)]
pub struct Vector3 {
    pub x: Fixed,
    pub y: Fixed,
    pub z: Fixed,
}

impl Vector3 {
    /// Saturated component-wise sum.
    pub open spec fn plus(self, rhs: Vector3) -> Vector3 {
        Vector3 { x: self.x.plus(rhs.x), y: self.y.plus(rhs.y), z: self.z.plus(rhs.z) }
    }

    /// Saturated component-wise difference.
    pub open spec fn minus(self, rhs: Vector3) -> Vector3 {
        Vector3 { x: self.x.minus(rhs.x), y: self.y.minus(rhs.y), z: self.z.minus(rhs.z) }
    }

    /// Every component multiplied by `factor`.
    pub open spec fn scaled(self, factor: Fixed) -> Vector3 {
        Vector3 { x: self.x.times(factor), y: self.y.times(factor), z: self.z.times(factor) }
    }

    /// The vector with the given components.
    pub fn new(x: Fixed, y: Fixed, z: Fixed) -> (v: Vector3)
        ensures
            v == (Vector3 { x, y, z }),
    {
        Vector3 { x, y, z }
    }

    /// The null vector.
    pub fn zero() -> (v: Vector3)
        ensures
            v.x.raw == 0,
            v.y.raw == 0,
            v.z.raw == 0,
    {
        Vector3 { x: Fixed::zero(), y: Fixed::zero(), z: Fixed::zero() }
    }

    /// Saturated component-wise sum.
    pub fn saturating_add(self, rhs: Vector3) -> (v: Vector3)
        ensures
            v == self.plus(rhs),
    {
        Vector3 {
            x: self.x.saturating_add(rhs.x),
            y: self.y.saturating_add(rhs.y),
            z: self.z.saturating_add(rhs.z),
        }
    }

    /// Saturated component-wise difference.
    pub fn saturating_sub(self, rhs: Vector3) -> (v: Vector3)
        ensures
            v == self.minus(rhs),
    {
        Vector3 {
            x: self.x.saturating_sub(rhs.x),
            y: self.y.saturating_sub(rhs.y),
            z: self.z.saturating_sub(rhs.z),
        }
    }

    /// Every component multiplied by `factor`.
    pub fn scale(self, factor: Fixed) -> (v: Vector3)
        ensures
            v == self.scaled(factor),
    {
        Vector3 {
            x: self.x.saturating_mul(factor),
            y: self.y.saturating_mul(factor),
            z: self.z.saturating_mul(factor),
        }
    }
}

} // verus!
