//! Mirrored reflection.

use crate::entity::geometry::GeometryHit;
use crate::entity::material::ScatteredRay;
use crate::ray::Ray;
use crate::scalar::{Scalar, ONE_BITS};
use crate::vector::Vector3;
use vstd::prelude::*;

verus! {

/// A polished or brushed surface: a mirror, blurred by `fuzz`.
#[derive(Clone, Copy, Debug, PartialEq, Eq)]
pub struct Metal {
    pub albedo: Vector3,
    pub fuzz: Scalar,
}

impl Metal {
    /// The roughness lies between zero and one.
    pub open spec fn wf(self) -> bool {
        Scalar::zero_spec().le_spec(self.fuzz) && self.fuzz.le_spec(Scalar { bits: ONE_BITS })
    }

    /// The ray that leaves the surface: the mirrored direction, or with a
    /// roughness above zero the blurred one.
    pub open spec fn scatter_spec(self, hit: GeometryHit, mirrored: Vector3, blurred: Vector3)
        -> ScatteredRay {
        ScatteredRay {
            ray: Ray {
                origin: hit.point,
                direction: if Scalar::zero_spec().lt_spec(self.fuzz) {
                    blurred
                } else {
                    mirrored
                },
            },
            decay: self.albedo,
        }
    }

    /// A metal of the given colour and roughness.
    pub fn new(albedo: Vector3, fuzz: Scalar) -> (material: Metal)
        requires
            Scalar::zero_spec().le_spec(fuzz),
            fuzz.le_spec(Scalar { bits: ONE_BITS }),
        ensures
            material.albedo == albedo,
            material.fuzz == fuzz,
            material.wf(),
    {
        Metal { albedo, fuzz }
    }

    /// Whether the mirrored direction is blurred at all.
    pub fn is_rough(&self) -> (rough: bool)
        ensures
            rough == Scalar::zero_spec().lt_spec(self.fuzz),
    {
        Scalar::zero().lt(self.fuzz)
    }

    /// Sends a ray on from `hit`. `mirrored` is the incoming direction
    /// reflected about the normal, `blurred` is `mirrored` plus `fuzz` times a
    /// unit vector drawn uniformly from the sphere.
    pub fn scatter(&self, hit: &GeometryHit, mirrored: Vector3, blurred: Vector3) -> (scattered:
        ScatteredRay)
        ensures
            scattered == self.scatter_spec(*hit, mirrored, blurred),
            self.fuzz.rank() == 0 && !self.fuzz.is_nan_spec() ==> scattered.ray.direction
                == mirrored,
    {
        let direction = if self.is_rough() {
            blurred
        } else {
            mirrored
        };
        ScatteredRay { ray: Ray::new(hit.point, direction), decay: self.albedo }
    }
}

} // verus!
