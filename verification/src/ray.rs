//! A ray in space.

use crate::vector::{Point3, Vector3};
use vstd::prelude::*;

verus! {

/// A ray: the points `origin + t * direction`.
#[derive(Clone, Copy, Debug, PartialEq, Eq)]
pub struct Ray {
    /// Where the ray starts.
    pub origin: Point3,
    /// Where it goes. Not necessarily of unit length.
    pub direction: Vector3,
}

impl Ray {
    /// The ray from `origin` along `direction`.
    pub fn new(origin: Point3, direction: Vector3) -> (ray: Ray)
        ensures
            ray.origin == origin,
            ray.direction == direction,
    {
        Ray { origin, direction }
    }
}

} // verus!
