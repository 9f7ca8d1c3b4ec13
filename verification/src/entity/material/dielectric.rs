//! Refraction and reflection.

use crate::entity::geometry::GeometryHit;
use crate::entity::material::ScatteredRay;
use crate::ray::Ray;
use crate::scalar::Scalar;
use crate::vector::Vector3;
use vstd::prelude::*;

verus! {

/// A clear medium such as glass: it bends light, and mirrors some of it.
#[derive(Clone, Copy, Debug, PartialEq, Eq)]
pub struct Dielectric {
    pub albedo: Vector3,
    /// The refractive index, relative to the medium outside.
    pub ri: Scalar,
}

impl Dielectric {
    /// The refractive index is above zero.
    pub open spec fn wf(self) -> bool {
        Scalar::zero_spec().lt_spec(self.ri)
    }

    /// The direction in which light leaves. Without a refracted direction the
    /// ray is mirrored. With one, it is mirrored where the random `draw` falls
    /// below the `reflectance`, and refracted otherwise.
    pub open spec fn direction_spec(
        mirrored: Vector3,
        refracted: Option<Vector3>,
        reflectance: Scalar,
        draw: Scalar,
    ) -> Vector3 {
        match refracted {
            Some(bent) => if draw.lt_spec(reflectance) {
                mirrored
            } else {
                bent
            },
            None => mirrored,
        }
    }

    /// The refractive index on the side the ray comes from over that on the
    /// other side: the inverse of the medium's index where the ray enters the
    /// medium, the index itself where the ray leaves it.
    pub open spec fn relative_index_spec(self, hit: GeometryHit, inverse: Scalar) -> Scalar {
        if hit.exterior {
            inverse
        } else {
            self.ri
        }
    }

    /// A medium of the given colour and refractive index.
    pub fn new(albedo: Vector3, ri: Scalar) -> (material: Dielectric)
        requires
            Scalar::zero_spec().lt_spec(ri),
        ensures
            material.albedo == albedo,
            material.ri == ri,
            material.wf(),
    {
        Dielectric { albedo, ri }
    }

    /// The ratio of refractive indices at `hit`, by the side the ray came
    /// from. `inverse` is one over the medium's index.
    pub fn relative_index(&self, hit: &GeometryHit, inverse: Scalar) -> (eta: Scalar)
        ensures
            eta == self.relative_index_spec(*hit, inverse),
            eta == (if hit.exterior {
                inverse
            } else {
                self.ri
            }),
    {
        if hit.exterior {
            inverse
        } else {
            self.ri
        }
    }

    /// Sends a ray on from `hit`. `mirrored` is the incoming direction
    /// reflected about the normal; `refracted` is the direction bent by
    /// Snell's law, where there is one; `reflectance` is the share of light
    /// mirrored at this angle and `draw` a number drawn uniformly from zero
    /// (included) to one (excluded).
    pub fn scatter(
        &self,
        hit: &GeometryHit,
        mirrored: Vector3,
        refracted: Option<Vector3>,
        reflectance: Scalar,
        draw: Scalar,
    ) -> (scattered: ScatteredRay)
        ensures
            scattered.ray.origin == hit.point,
            scattered.ray.direction == Dielectric::direction_spec(
                mirrored,
                refracted,
                reflectance,
                draw,
            ),
            scattered.decay == self.albedo,
    {
        let direction = match refracted {
            Some(bent) => if draw.lt(reflectance) {
                mirrored
            } else {
                bent
            },
            None => mirrored,
        };
        ScatteredRay { ray: Ray::new(hit.point, direction), decay: self.albedo }
    }
}

} // verus!
