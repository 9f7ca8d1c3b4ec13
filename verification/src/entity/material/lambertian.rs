//! Diffuse reflection.

use crate::entity::geometry::GeometryHit;
use crate::entity::material::ScatteredRay;
use crate::ray::Ray;
use crate::utils::{near_zero, near_zero_spec};
use crate::vector::Vector3;
use vstd::prelude::*;

verus! {

/// A matte surface: it sends light on in a random direction round the normal.
#[derive(Clone, Copy, Debug, PartialEq, Eq)]
pub struct Lambertian {
    pub albedo: Vector3,
}

impl Lambertian {
    /// The ray that leaves a matte surface. `candidate` is the normal plus a
    /// random unit vector; where the two cancel, the ray leaves along the
    /// normal.
    pub open spec fn scatter_spec(self, hit: GeometryHit, candidate: Vector3) -> ScatteredRay {
        ScatteredRay {
            ray: Ray {
                origin: hit.point,
                direction: if near_zero_spec(candidate) {
                    hit.normal
                } else {
                    candidate
                },
            },
            decay: self.albedo,
        }
    }

    /// A matte surface of the given colour.
    pub fn new(albedo: Vector3) -> (material: Lambertian)
        ensures
            material.albedo == albedo,
    {
        Lambertian { albedo }
    }

    /// Sends a ray on from `hit`. `candidate` is the sum of the normal of
    /// `hit` and a unit vector drawn uniformly from the sphere.
    pub fn scatter(&self, hit: &GeometryHit, candidate: Vector3) -> (scattered: ScatteredRay)
        ensures
            scattered == self.scatter_spec(*hit, candidate),
    {
        let direction = if near_zero(candidate) {
            hit.normal
        } else {
            candidate
        };
        ScatteredRay { ray: Ray::new(hit.point, direction), decay: self.albedo }
    }
}

} // verus!
