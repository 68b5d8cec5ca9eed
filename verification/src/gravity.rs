//! The gravitational constant: set once at setup, read at every step.

use crate::body::UninitializedGravityError;
use crate::fixed::Fixed;
use vstd::prelude::*;

verus! {

/// The gravitational constant in the units of the simulation, or nothing
/// before it has been set.
pub struct GravityConstant {
    value: Option<Fixed>,
}

impl View for GravityConstant {
    type V = Option<Fixed>;

    /// The constant, once set.
    closed spec fn view(&self) -> Option<Fixed> {
        self.value
    }
}

impl GravityConstant {
    /// A constant that has not been set yet.
    pub fn new() -> (gravity: GravityConstant)
        ensures
            gravity@.is_none(),
    {
        GravityConstant { value: None }
    }

    /// Stores the physical constant `raw` converted to the units of the
    /// simulation by `unit_scale`.
    pub fn set_gravity_constant(&mut self, raw: Fixed, unit_scale: Fixed)
        ensures
            final(self)@ == Some(raw.times(unit_scale)),
    {
        self.value = Some(raw.saturating_mul(unit_scale));
    }

    /// The stored constant, or an error if none has been set.
    pub fn get_gravity_constant(&self) -> (r: Result<Fixed, UninitializedGravityError>)
        ensures
            match self@ {
                Some(g) => r == Ok::<Fixed, UninitializedGravityError>(g),
                None => r == Err::<Fixed, UninitializedGravityError>(
                    UninitializedGravityError {  },
                ),
            },
    {
        match self.value {
            Some(g) => Ok(g),
            None => Err(UninitializedGravityError {  }),
        }
    }
}

} // verus!
