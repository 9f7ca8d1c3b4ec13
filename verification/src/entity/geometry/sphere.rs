//! A sphere.

use crate::entity::geometry::{is_strictly_inside, strictly_inside, GeometryHit};
use crate::ray::Ray;
use crate::scalar::Scalar;
use crate::vector::{Point3, Vector3};
use vstd::prelude::*;

verus! {

/// A sphere, given by its radius and its centre.
#[derive(Clone, Copy, Debug, PartialEq, Eq)]
pub struct Sphere {
    pub radius: Scalar,
    pub center: Point3,
}

/// What the intersection equation `a t^2 - 2 h t + c = 0` of a ray and a sphere
/// gives: its discriminant `h^2 - a c` and its two roots.
#[derive(Clone, Copy, Debug, PartialEq, Eq)]
pub struct Roots {
    pub discriminant: Scalar,
    /// The smaller root, `(h - sqrt(discriminant)) / a`.
    pub near: Scalar,
    /// The larger root, `(h + sqrt(discriminant)) / a`.
    pub far: Scalar,
}

/// A sphere's surface where a ray meets it.
#[derive(Clone, Copy, Debug, PartialEq, Eq)]
pub struct Surface {
    /// The point of the ray at the meeting's parameter.
    pub point: Point3,
    /// The unit normal there that points away from the centre.
    pub outward: Vector3,
    /// The dot product of `outward` with the ray's direction.
    pub incidence: Scalar,
}

/// Whether `hit` records the meeting at parameter `t` with a surface that
/// `surface` gave for it, the normal turned against the ray.
pub open spec fn met_at<N: Fn(Sphere, Ray, Scalar) -> Surface>(
    surface: N,
    sphere: Sphere,
    ray: Ray,
    t: Scalar,
    hit: GeometryHit,
) -> bool {
    exists|at: Surface| #[trigger]
        call_ensures(surface, (sphere, ray, t), at) && hit == GeometryHit::oriented(
            at.point,
            at.outward,
            at.incidence,
            t,
        ) && (!at.incidence.is_nan_spec() ==> GeometryHit::facing(at.incidence).le_spec(
            Scalar::zero_spec(),
        ))
}

/// Whether `found` is where `ray` meets `sphere` strictly inside `t_range`:
/// for roots that `solve` gave, none where no root counts, and else the
/// meeting at the root that counts.
pub open spec fn hit_by<Q: Fn(Sphere, Ray) -> Roots, N: Fn(Sphere, Ray, Scalar) -> Surface>(
    solve: Q,
    surface: N,
    sphere: Sphere,
    ray: Ray,
    t_range: (Scalar, Scalar),
    found: Option<GeometryHit>,
) -> bool {
    exists|roots: Roots| #[trigger]
        call_ensures(solve, (sphere, ray), roots) && match Sphere::root_spec(
            roots.discriminant,
            roots.near,
            roots.far,
            t_range,
        ) {
            None => found.is_none(),
            Some(t) => found matches Some(hit) && met_at(surface, sphere, ray, t, hit),
        }
}

/// A sphere answers alike under every upper bound: with its roots in order,
/// the root that counts under a nearer bound is the one that counts in the
/// whole range, where that lies under the bound, and none otherwise.
pub proof fn lemma_root_under_bound(
    discriminant: Scalar,
    near: Scalar,
    far: Scalar,
    t_range: (Scalar, Scalar),
    bound: Scalar,
)
    requires
        !far.lt_spec(near),
        bound.le_spec(t_range.1),
    ensures
        Sphere::root_spec(discriminant, near, far, (t_range.0, bound)) == (match Sphere::root_spec(
            discriminant,
            near,
            far,
            t_range,
        ) {
            Some(t) => if t.lt_spec(bound) {
                Some(t)
            } else {
                None
            },
            None => None,
        }),
{
}

impl Sphere {
    /// A sphere has a radius above zero.
    pub open spec fn wf(self) -> bool {
        Scalar::zero_spec().lt_spec(self.radius)
    }

    /// Which root of the intersection equation counts. The equation
    /// `a t^2 - 2 h t + c = 0` has the given discriminant `h^2 - a c` and,
    /// where that is not negative, the roots `near <= far`. The nearer root
    /// counts if it lies strictly inside `t_range`, else the farther one if it
    /// does, else none.
    pub open spec fn root_spec(
        discriminant: Scalar,
        near: Scalar,
        far: Scalar,
        t_range: (Scalar, Scalar),
    ) -> Option<Scalar> {
        if discriminant.lt_spec(Scalar::zero_spec()) {
            None
        } else if strictly_inside(near, t_range) {
            Some(near)
        } else if strictly_inside(far, t_range) {
            Some(far)
        } else {
            None
        }
    }

    /// The sphere of the given radius round `center`.
    pub fn new(radius: Scalar, center: Point3) -> (sphere: Sphere)
        requires
            Scalar::zero_spec().lt_spec(radius),
        ensures
            sphere.radius == radius,
            sphere.center == center,
            sphere.wf(),
    {
        Sphere { radius, center }
    }

    /// Chooses the ray parameter at which a ray meets the sphere, from the
    /// discriminant of the intersection equation and its two roots.
    pub fn root(discriminant: Scalar, near: Scalar, far: Scalar, t_range: (Scalar, Scalar)) -> (t:
        Option<Scalar>)
        ensures
            t == Sphere::root_spec(discriminant, near, far, t_range),
            t matches Some(at) ==> strictly_inside(at, t_range),
    {
        if discriminant.lt(Scalar::zero()) {
            return None;
        }
        if is_strictly_inside(near, t_range) {
            Some(near)
        } else if is_strictly_inside(far, t_range) {
            Some(far)
        } else {
            None
        }
    }

    /// Finds where `ray` meets the sphere at a parameter strictly inside
    /// `t_range`. `solve` gives the discriminant and the roots of the
    /// intersection equation; `surface` gives the point, the outward normal
    /// and its dot product with the ray's direction at a parameter. The normal
    /// of the meeting is turned against the ray, whichever side it came from.
    pub fn hit<Q, N>(&self, ray: &Ray, t_range: (Scalar, Scalar), solve: Q, surface: N) -> (found:
        Option<GeometryHit>) where
        Q: Fn(Sphere, Ray) -> Roots,
        N: Fn(Sphere, Ray, Scalar) -> Surface,

        requires
            call_requires(solve, (*self, *ray)),
            forall|t: Scalar|
                strictly_inside(t, t_range) ==> call_requires(surface, (*self, *ray, t)),
        ensures
            hit_by(solve, surface, *self, *ray, t_range, found),
            found matches Some(hit) ==> strictly_inside(hit.t, t_range) && met_at(
                surface,
                *self,
                *ray,
                hit.t,
                hit,
            ),
    {
        let roots = solve(*self, *ray);
        match Sphere::root(roots.discriminant, roots.near, roots.far, t_range) {
            None => None,
            Some(t) => {
                let at = surface(*self, *ray, t);
                let hit = GeometryHit::new(at.point, at.outward, at.incidence, t);
                proof {
                    assert(call_ensures(surface, (*self, *ray, t), at));
                    assert(met_at(surface, *self, *ray, t, hit));
                }
                Some(hit)
            },
        }
    }
}

} // verus!
