use path_tracer::entity::geometry::GeometryHit;
use path_tracer::entity::material::dielectric::Dielectric;
use path_tracer::entity::material::lambertian::Lambertian;
use path_tracer::entity::material::metal::Metal;
use path_tracer::entity::material::{absorbs, total_internal_reflection};
use path_tracer::scalar::Scalar;
use path_tracer::vector::{Point3, Vector3};

fn num(x: f64) -> Scalar {
    Scalar::from_bits(x.to_bits())
}

fn vector(x: f64, y: f64, z: f64) -> Vector3 {
    Vector3::new(num(x), num(y), num(z))
}

fn flat_hit() -> GeometryHit {
    GeometryHit::new(Point3::new(num(1.), num(0.), num(-2.)), vector(0., 1., 0.), num(-1.), num(3.))
}

#[test]
fn lambertian_follows_the_candidate() {
    let matte = Lambertian::new(vector(0.5, 0.4, 0.3));
    let hit = flat_hit();
    let scattered = matte.scatter(&hit, vector(0.3, 1.2, -0.1));
    assert_eq!(scattered.ray.origin, hit.point);
    assert_eq!(scattered.ray.direction, vector(0.3, 1.2, -0.1));
    assert_eq!(scattered.decay, vector(0.5, 0.4, 0.3));
}

#[test]
fn lambertian_falls_back_to_the_normal() {
    let matte = Lambertian::new(vector(0.5, 0.4, 0.3));
    let hit = flat_hit();
    let scattered = matte.scatter(&hit, vector(1e-9, 0., -1e-12));
    assert_eq!(scattered.ray.origin, hit.point);
    assert_eq!(scattered.ray.direction, hit.normal);
    assert_eq!(scattered.decay, vector(0.5, 0.4, 0.3));
    let cancelled = matte.scatter(&hit, vector(0., 0., 0.));
    assert_eq!(cancelled.ray.direction, hit.normal);
}

#[test]
fn lambertian_keeps_a_candidate_with_one_component_at_the_threshold() {
    let matte = Lambertian::new(vector(0.5, 0.4, 0.3));
    let hit = flat_hit();
    let scattered = matte.scatter(&hit, vector(0., 1e-8, 0.));
    assert_eq!(scattered.ray.direction, vector(0., 1e-8, 0.));
}

#[test]
fn polished_metal_is_a_mirror() {
    let metal = Metal::new(vector(0.7, 0.6, 0.5), num(0.));
    assert!(!metal.is_rough());
    let hit = flat_hit();
    let d = (1.0f64, -1.0f64, 0.5f64);
    let n = (0.0f64, 1.0f64, 0.0f64);
    let dot = d.0 * n.0 + d.1 * n.1 + d.2 * n.2;
    let mirrored = vector(d.0 - 2. * dot * n.0, d.1 - 2. * dot * n.1, d.2 - 2. * dot * n.2);
    let scattered = metal.scatter(&hit, mirrored, vector(9., 9., 9.));
    assert_eq!(scattered.ray.direction, vector(1., 1., 0.5));
    assert_eq!(scattered.ray.origin, hit.point);
    assert_eq!(scattered.decay, vector(0.7, 0.6, 0.5));
}

#[test]
fn metal_with_negative_zero_fuzz_is_a_mirror() {
    let metal = Metal::new(vector(0.7, 0.6, 0.5), num(-0.));
    assert!(!metal.is_rough());
    let scattered = metal.scatter(&flat_hit(), vector(1., 1., 0.5), vector(9., 9., 9.));
    assert_eq!(scattered.ray.direction, vector(1., 1., 0.5));
}

#[test]
fn brushed_metal_takes_the_blurred_direction() {
    let metal = Metal::new(vector(0.7, 0.6, 0.5), num(0.25));
    assert!(metal.is_rough());
    let hit = flat_hit();
    let scattered = metal.scatter(&hit, vector(1., 1., 0.5), vector(1.1, 0.9, 0.6));
    assert_eq!(scattered.ray.direction, vector(1.1, 0.9, 0.6));
    assert_eq!(scattered.ray.origin, hit.point);
    assert_eq!(scattered.decay, vector(0.7, 0.6, 0.5));
    assert_eq!(metal.fuzz, num(0.25));
}

#[test]
fn dielectric_without_a_refracted_direction_mirrors() {
    let glass = Dielectric::new(vector(1., 1., 1.), num(1.5));
    let hit = flat_hit();
    let scattered = glass.scatter(&hit, vector(1., 1., 0.), None, num(0.04), num(0.99));
    assert_eq!(scattered.ray.direction, vector(1., 1., 0.));
    assert_eq!(scattered.ray.origin, hit.point);
    assert_eq!(scattered.decay, vector(1., 1., 1.));
}

#[test]
fn dielectric_mirrors_when_the_draw_is_below_the_reflectance() {
    let glass = Dielectric::new(vector(1., 1., 1.), num(1.5));
    let hit = flat_hit();
    let bent = Some(vector(0.5, -1., 0.));
    let scattered = glass.scatter(&hit, vector(1., 1., 0.), bent, num(0.04), num(0.039));
    assert_eq!(scattered.ray.direction, vector(1., 1., 0.));
}

#[test]
fn dielectric_refracts_when_the_draw_reaches_the_reflectance() {
    let glass = Dielectric::new(vector(0.9, 1., 1.), num(1.5));
    let hit = flat_hit();
    let bent = Some(vector(0.5, -1., 0.));
    let at = glass.scatter(&hit, vector(1., 1., 0.), bent, num(0.04), num(0.04));
    assert_eq!(at.ray.direction, vector(0.5, -1., 0.));
    let above = glass.scatter(&hit, vector(1., 1., 0.), bent, num(0.04), num(0.5));
    assert_eq!(above.ray.direction, vector(0.5, -1., 0.));
    assert_eq!(above.ray.origin, hit.point);
    assert_eq!(above.decay, vector(0.9, 1., 1.));
    assert_eq!(glass.ri, num(1.5));
}

#[test]
fn dielectric_with_full_reflectance_always_mirrors() {
    let glass = Dielectric::new(vector(1., 1., 1.), num(1.5));
    let hit = flat_hit();
    let bent = Some(vector(0.5, -1., 0.));
    for draw in [0., 0.25, 0.999_999] {
        let scattered = glass.scatter(&hit, vector(1., 1., 0.), bent, num(1.), num(draw));
        assert_eq!(scattered.ray.direction, vector(1., 1., 0.));
    }
}

#[test]
fn total_internal_reflection_starts_at_one() {
    assert!(total_internal_reflection(num(1.)));
    assert!(total_internal_reflection(num(1.5)));
    assert!(total_internal_reflection(num(f64::INFINITY)));
    assert!(!total_internal_reflection(num(0.999_999_999)));
    assert!(!total_internal_reflection(num(0.)));
    assert!(!total_internal_reflection(num(f64::NAN)));
}

#[test]
fn lambertian_keeps_a_candidate_that_points_backwards() {
    let matte = Lambertian::new(vector(0.5, 0.4, 0.3));
    let hit = flat_hit();
    let scattered = matte.scatter(&hit, vector(-1., -1., -1.));
    assert_eq!(scattered.ray.direction, vector(-1., -1., -1.));
    let other = matte.scatter(&hit, vector(-0.3, -1e-9, -0.2));
    assert_eq!(other.ray.direction, vector(-0.3, -1e-9, -0.2));
}

#[test]
fn lambertian_falls_back_for_a_tiny_candidate_of_any_sign() {
    let matte = Lambertian::new(vector(0.5, 0.4, 0.3));
    let hit = flat_hit();
    let scattered = matte.scatter(&hit, vector(-1e-9, 2e-9, -0.));
    assert_eq!(scattered.ray.direction, hit.normal);
}

#[test]
fn relative_index_goes_by_the_side_the_ray_came_from() {
    let glass = Dielectric::new(vector(1., 1., 1.), num(1.5));
    let outside = flat_hit();
    assert!(outside.exterior);
    assert_eq!(glass.relative_index(&outside, num(1. / 1.5)), num(1. / 1.5));
    let inside =
        GeometryHit::new(Point3::new(num(1.), num(0.), num(-2.)), vector(0., 1., 0.), num(1.), num(3.));
    assert!(!inside.exterior);
    assert_eq!(glass.relative_index(&inside, num(1. / 1.5)), num(1.5));
}

#[test]
fn absorbs_what_is_near_zero() {
    assert!(absorbs(vector(0., 0., 0.)));
    assert!(absorbs(vector(1e-9, 1e-9, 1e-9)));
    assert!(absorbs(vector(-0., 1e-9, 0.)));
    assert!(!absorbs(vector(0.5, 0.5, 0.5)));
    assert!(!absorbs(vector(1e-8, 0., 0.)));
    assert!(!absorbs(vector(0., 0., 1.)));
    assert!(!absorbs(vector(1., 1., 1.)));
    assert!(!absorbs(vector(2., 0., 0.)));
}

#[test]
fn absorbs_what_would_give_a_negative_colour_or_none() {
    assert!(absorbs(vector(-1., -1., -1.)));
    assert!(absorbs(vector(0.5, -0.5, 0.5)));
    assert!(absorbs(vector(0.5, 0.5, -1e-9)));
    assert!(absorbs(vector(f64::NAN, 0.5, 0.5)));
    assert!(absorbs(vector(0.5, 0.5, f64::NAN)));
    assert!(!absorbs(vector(0.5, -0., 0.5)));
    assert!(!absorbs(vector(f64::INFINITY, 0.5, 0.5)));
}
