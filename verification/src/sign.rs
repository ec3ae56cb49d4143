//! The sign of a quantity, as used for directions of movement.
use vstd::prelude::*;

verus! {

/// Whether a quantity is above, at or below zero.
#[derive(PartialEq, Eq, Debug, Copy, Clone, Structural)]
pub enum Sign {
    POSITIVE,
    ZERO,
    NEGATIVE,
}

impl Sign {
    /// +1, 0 or -1: the unit step in this direction.
    pub fn unit(&self) -> (r: i32)
        ensures
            *self == Sign::POSITIVE ==> r == 1,
            *self == Sign::ZERO ==> r == 0,
            *self == Sign::NEGATIVE ==> r == -1,
    {
        match self {
            Sign::POSITIVE => 1,
            Sign::ZERO => 0,
            Sign::NEGATIVE => -1,
        }
    }
}

} // verus!
