//! How a surface sends light on.

pub mod dielectric;
pub mod lambertian;
pub mod metal;

pub use self::dielectric::Dielectric;
pub use self::lambertian::Lambertian;
pub use self::metal::Metal;

use crate::entity::geometry::GeometryHit;
use crate::ray::Ray;
use crate::scalar::{Scalar, ONE_BITS};
use crate::utils::{near_zero, near_zero_spec};
use crate::vector::Vector3;
use vstd::prelude::*;

verus! {

/// A ray after it has met a surface.
#[derive(Clone, Copy, Debug, PartialEq, Eq)]
pub struct ScatteredRay {
    /// The ray that carries the light path on, starting where the surface was
    /// met.
    pub ray: Ray,
    /// What the surface lets through of each colour channel. It multiplies
    /// everything gathered along `ray`.
    pub decay: Vector3,
}

/// A surface that sends a ray on. A scene is shared between the workers that
/// render it, so a surface can be sent to and shared between threads.
///
/// An implementation promises what `scatter` ensures: that what it sends on
/// follows its rule `sends` for the ray and the meeting it was asked about,
/// that the new ray starts where the surface was met, and that the decay is
/// the surface's own.
pub trait Material: Send + Sync {
    /// What the surface lets through of each colour channel.
    spec fn decay(&self) -> Vector3;

    /// Whether `out` is what this surface may send on for `ray`, which met it
    /// as `hit` records: the surface's own rule, which ties the new ray to the
    /// incoming one, to the meeting, and to chance.
    spec fn sends(&self, ray: Ray, hit: GeometryHit, out: ScatteredRay) -> bool;

    /// Sends on a ray that met the surface as `hit` records. The direction may
    /// be drawn at random; the decay is the material's own.
    fn scatter(&self, ray: &Ray, hit: &GeometryHit) -> (scattered: ScatteredRay)
        ensures
            self.sends(*ray, *hit, scattered),
            scattered.ray.origin == hit.point,
            scattered.decay == self.decay(),
    ;
}

/// Whether a channel of a decay would turn light into less than nothing, or
/// into no number at all.
pub open spec fn spoils_spec(channel: Scalar) -> bool {
    channel.is_nan_spec() || channel.lt_spec(Scalar::zero_spec())
}

/// Whether a surface with this decay lets no light through: the decay is near
/// zero, or one of its channels is below zero or no number. What would give a
/// negative colour, or none, counts as nothing.
pub open spec fn absorbs_spec(decay: Vector3) -> bool {
    near_zero_spec(decay) || spoils_spec(decay.x) || spoils_spec(decay.y) || spoils_spec(decay.z)
}

/// Whether a surface with this decay lets no light through, so that a light
/// path ends on it.
pub fn absorbs(decay: Vector3) -> (dark: bool)
    ensures
        dark == absorbs_spec(decay),
{
    let zero = Scalar::zero();
    near_zero(decay) || decay.x.is_nan() || decay.x.lt(zero) || decay.y.is_nan() || decay.y.lt(zero)
        || decay.z.is_nan() || decay.z.lt(zero)
}

/// Light cannot pass into the other medium where the sine of the angle of
/// incidence, scaled by the ratio of the refractive indices, reaches one.
pub open spec fn total_internal_reflection_spec(scaled_sine: Scalar) -> bool {
    (Scalar { bits: ONE_BITS }).le_spec(scaled_sine)
}

/// Whether a ray is reflected for want of a refracted direction.
/// `scaled_sine` is the sine of the angle of incidence times the ratio of the
/// refractive indices.
pub fn total_internal_reflection(scaled_sine: Scalar) -> (reflected: bool)
    ensures
        reflected == total_internal_reflection_spec(scaled_sine),
{
    Scalar::one().le(scaled_sine)
}

} // verus!
