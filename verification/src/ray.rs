//! Rays.

use crate::fixed::Fixed;
use crate::point::Point;
use crate::vector::Vector3;
use vstd::prelude::*;

verus! {

/// A half-line: the positions `origin + t * direction`. The direction need
/// not have unit length.
#[derive(Clone, Copy, Debug, PartialEq, Eq, Structural)]
pub struct Ray {
    pub origin: Point,
    pub direction: Vector3,
}

impl Ray {
    /// The position at parameter `t`.
    pub open spec fn spec_at(&self, t: Fixed) -> Point {
        self.origin.moved(self.direction.times(t))
    }

    /// The position at parameter `t`.
    #[verifier::when_used_as_spec(spec_at)]
    pub fn at(&self, t: Fixed) -> (p: Point)
        ensures
            p == self.spec_at(t),
    {
        self.origin + t * self.direction
    }
}

} // verus!
