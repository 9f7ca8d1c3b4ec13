//! How a ray meets a shape.

pub mod sphere;

pub use self::sphere::{Roots, Sphere, Surface};

use crate::ray::Ray;
use crate::scalar::Scalar;
use crate::vector::{Point3, Vector3};
use vstd::prelude::*;

verus! {

/// Whether `t` lies strictly between the two bounds of `t_range`.
pub open spec fn strictly_inside(t: Scalar, t_range: (Scalar, Scalar)) -> bool {
    t_range.0.lt_spec(t) && t.lt_spec(t_range.1)
}

/// Whether `t` lies strictly between the two bounds of `t_range`.
pub fn is_strictly_inside(t: Scalar, t_range: (Scalar, Scalar)) -> (inside: bool)
    ensures
        inside == strictly_inside(t, t_range),
{
    t_range.0.lt(t) && t.lt(t_range.1)
}

/// Where a ray meets a surface.
#[derive(Clone, Copy, Debug, PartialEq, Eq)]
pub struct GeometryHit {
    /// The point where they meet.
    pub point: Point3,
    /// The surface normal there, turned against the ray.
    pub normal: Vector3,
    /// Whether the ray came from outside: the outward normal already opposed
    /// it.
    pub exterior: bool,
    /// The ray's parameter at the point.
    pub t: Scalar,
}

impl GeometryHit {
    /// The record of a meeting at `point`, where the outward normal is
    /// `outward` and its dot product with the ray's direction is `incidence`.
    /// The ray came from outside where that product is negative; otherwise the
    /// stored normal is the outward one turned round.
    pub open spec fn oriented(
        point: Point3,
        outward: Vector3,
        incidence: Scalar,
        t: Scalar,
    ) -> GeometryHit {
        let exterior = incidence.lt_spec(Scalar::zero_spec());
        GeometryHit {
            point,
            normal: if exterior {
                outward
            } else {
                outward.neg_spec()
            },
            exterior,
            t,
        }
    }

    /// The dot product of the stored normal with the ray's direction, given
    /// that of the outward normal: the same number where the normal was kept,
    /// the opposite number where it was turned round.
    pub open spec fn facing(incidence: Scalar) -> Scalar {
        if incidence.lt_spec(Scalar::zero_spec()) {
            incidence
        } else {
            incidence.neg_spec()
        }
    }

    /// Records a meeting at `point` with parameter `t`. `outward` is the
    /// surface's outward normal there and `incidence` its dot product with the
    /// ray's direction. The stored normal is turned against the ray.
    pub fn new(point: Point3, outward: Vector3, incidence: Scalar, t: Scalar) -> (hit: GeometryHit)
        ensures
            hit == GeometryHit::oriented(point, outward, incidence, t),
            !incidence.is_nan_spec() ==> (if hit.exterior {
                incidence
            } else {
                incidence.neg_spec()
            }).le_spec(Scalar::zero_spec()),
    {
        let exterior = incidence.lt(Scalar::zero());
        let normal = if exterior {
            outward
        } else {
            outward.neg()
        };
        GeometryHit { point, normal, exterior, t }
    }
}

/// The stored normal never points along the ray: its dot product with the
/// ray's direction is at most zero, whichever side the ray came from.
pub proof fn lemma_normal_opposes_ray(incidence: Scalar)
    requires
        !incidence.is_nan_spec(),
    ensures
        GeometryHit::facing(incidence).le_spec(Scalar::zero_spec()),
{
}

/// A shape that a ray can meet. A scene is shared between the workers that
/// render it, so a shape can be sent to and shared between threads.
///
/// An implementation promises what `hit` ensures: that it answers as
/// `hit_spec` says, and never with a parameter outside the range.
pub trait Geometry: Send + Sync {
    /// Where this shape meets `ray` at a parameter strictly inside `t_range`,
    /// if it does. A shape is a fixed surface: the answer depends on the ray
    /// and the range alone.
    spec fn hit_spec(&self, ray: Ray, t_range: (Scalar, Scalar)) -> Option<GeometryHit>;

    /// Finds where this shape meets `ray` at a parameter strictly inside
    /// `t_range`.
    fn hit(&self, ray: &Ray, t_range: (Scalar, Scalar)) -> (found: Option<GeometryHit>)
        ensures
            found == self.hit_spec(*ray, t_range),
            found matches Some(h) ==> strictly_inside(h.t, t_range),
    ;
}

} // verus!
