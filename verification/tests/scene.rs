use nalgebra as na;
use path_tracer::camera::{trace, Camera, LightPath, PathEnd, MAX_SCATTER, SAMPLING, SHADOW_BIAS_BITS};
use path_tracer::entity::geometry::sphere::{Roots, Sphere, Surface};
use path_tracer::entity::geometry::{Geometry, GeometryHit};
use path_tracer::entity::material::lambertian::Lambertian;
use path_tracer::entity::material::{absorbs, Material, ScatteredRay};
use path_tracer::entity::{nearest_hit, scattering, Entity};
use path_tracer::ray::Ray;
use path_tracer::scalar::Scalar;
use path_tracer::vector::{Point3, Vector3};

fn num(x: f64) -> Scalar {
    Scalar::from_bits(x.to_bits())
}

fn float(s: Scalar) -> f64 {
    f64::from_bits(s.to_bits())
}

fn vector(x: f64, y: f64, z: f64) -> Vector3 {
    Vector3::new(num(x), num(y), num(z))
}

fn point(x: f64, y: f64, z: f64) -> Point3 {
    Point3::new(num(x), num(y), num(z))
}

fn visible() -> (Scalar, Scalar) {
    (num(0.001), num(f64::INFINITY))
}

/// A surface that every ray meets at the same parameter.
struct Sheet {
    t: f64,
}

impl Geometry for Sheet {
    fn hit_spec(&self, ray: Ray, t_range: (Scalar, Scalar)) -> Option<GeometryHit> {
        self.hit(&ray, t_range)
    }

    fn hit(&self, ray: &Ray, t_range: (Scalar, Scalar)) -> Option<GeometryHit> {
        let t = num(self.t);
        if t_range.0.lt(t) && t.lt(t_range.1) {
            Some(GeometryHit::new(ray.origin, vector(0., 1., 0.), num(-1.), t))
        } else {
            None
        }
    }
}

/// A sphere with the arithmetic that finds its roots.
struct Ball(Sphere);

fn na_point(p: Point3) -> na::Point3<f64> {
    na::Point3::new(float(p.x), float(p.y), float(p.z))
}

fn na_vector(v: Vector3) -> na::Vector3<f64> {
    na::Vector3::new(float(v.x), float(v.y), float(v.z))
}

fn solve(sphere: Sphere, ray: Ray) -> Roots {
    let direction = na_vector(ray.direction);
    let oc = na_point(sphere.center) - na_point(ray.origin);
    let a = direction.norm_squared();
    let h = direction.dot(&oc);
    let c = oc.norm_squared() - float(sphere.radius).powi(2);
    let discriminant = h * h - a * c;
    Roots {
        discriminant: num(discriminant),
        near: num((h - discriminant.sqrt()) / a),
        far: num((h + discriminant.sqrt()) / a),
    }
}

fn surface(sphere: Sphere, ray: Ray, t: Scalar) -> Surface {
    let direction = na_vector(ray.direction);
    let at = na_point(ray.origin) + float(t) * direction;
    let outward = (at - na_point(sphere.center)).normalize();
    Surface {
        point: point(at.x, at.y, at.z),
        outward: vector(outward.x, outward.y, outward.z),
        incidence: num(outward.dot(&direction)),
    }
}

impl Geometry for Ball {
    fn hit_spec(&self, ray: Ray, t_range: (Scalar, Scalar)) -> Option<GeometryHit> {
        self.hit(&ray, t_range)
    }

    fn hit(&self, ray: &Ray, t_range: (Scalar, Scalar)) -> Option<GeometryHit> {
        self.0.hit(ray, t_range, solve, surface)
    }
}

/// A surface that sends every ray on along the normal.
struct Paint {
    decay: Vector3,
}

impl Material for Paint {
    fn decay(&self) -> Vector3 {
        self.decay
    }

    fn sends(&self, _ray: Ray, hit: GeometryHit, out: ScatteredRay) -> bool {
        out.ray == Ray::new(hit.point, hit.normal) && out.decay == self.decay
    }

    fn scatter(&self, _ray: &Ray, hit: &GeometryHit) -> ScatteredRay {
        ScatteredRay { ray: Ray::new(hit.point, hit.normal), decay: self.decay }
    }
}

/// A matte surface whose random unit vector is always the same.
struct Matte {
    surface: Lambertian,
    drawn: na::Vector3<f64>,
}

impl Material for Matte {
    fn decay(&self) -> Vector3 {
        self.surface.albedo
    }

    fn sends(&self, _ray: Ray, hit: GeometryHit, out: ScatteredRay) -> bool {
        out.ray.origin == hit.point && out.decay == self.surface.albedo
    }

    fn scatter(&self, _ray: &Ray, hit: &GeometryHit) -> ScatteredRay {
        let normal = na::Vector3::new(float(hit.normal.x), float(hit.normal.y), float(hit.normal.z));
        let candidate = normal + self.drawn;
        self.surface.scatter(hit, vector(candidate.x, candidate.y, candidate.z))
    }
}

fn sheet(t: f64, grey: f64) -> Entity {
    Entity::new(Box::new(Sheet { t }), Box::new(Paint { decay: vector(grey, grey, grey) }))
}

fn ground(albedo: f64, drawn: na::Vector3<f64>) -> Entity {
    Entity::new(
        Box::new(Ball(Sphere::new(num(1000.), point(0., -1000., 0.)))),
        Box::new(Matte { surface: Lambertian::new(vector(albedo, albedo, albedo)), drawn }),
    )
}

fn forward() -> Ray {
    Ray::new(point(0., 0., 0.), vector(0., 0., -1.))
}

/// The colour seen along a path: the background at its end, or black, times
/// every decay on the way back.
fn colour(path: &LightPath) -> na::Vector3<f64> {
    let mut seen = match path.end {
        PathEnd::Background { direction } => {
            let d = na::Vector3::new(float(direction.x), float(direction.y), float(direction.z));
            let alpha = 0.5 * (d.normalize().y + 1.);
            (1. - alpha) * na::Vector3::new(1., 1., 1.) + alpha * na::Vector3::new(0.5, 0.7, 1.)
        }
        PathEnd::Absorbed | PathEnd::Exhausted => na::Vector3::zeros(),
    };
    for bounce in path.bounces.iter().rev() {
        let decay =
            na::Vector3::new(float(bounce.decay.x), float(bounce.decay.y), float(bounce.decay.z));
        seen = seen.component_mul(&decay);
    }
    seen
}

#[test]
fn renderer_constants() {
    assert_eq!(MAX_SCATTER, 50);
    assert_eq!(SAMPLING, 500);
    assert_eq!(SHADOW_BIAS_BITS, 0.001f64.to_bits());
}

#[test]
fn nearest_hit_picks_the_smallest_parameter() {
    let scene = vec![sheet(5., 0.5), sheet(2., 0.5), sheet(3., 0.5)];
    let (i, hit) = nearest_hit(&scene, &forward(), visible()).expect("the ray meets the sheets");
    assert_eq!(i, 1);
    assert_eq!(float(hit.t), 2.);
}

#[test]
fn nearest_hit_does_not_depend_on_the_order() {
    for order in [[5., 2., 3.], [2., 3., 5.], [3., 5., 2.], [5., 3., 2.], [2., 5., 3.], [3., 2., 5.]] {
        let scene: Vec<Entity> = order.iter().map(|&t| sheet(t, 0.5)).collect();
        let (i, hit) = nearest_hit(&scene, &forward(), visible()).expect("the ray meets the sheets");
        assert_eq!(float(hit.t), 2.);
        assert_eq!(order[i], 2.);
    }
}

#[test]
fn nearest_hit_keeps_the_first_of_two_at_the_same_parameter() {
    let scene = vec![sheet(4., 0.1), sheet(2., 0.2), sheet(2., 0.3), sheet(7., 0.4)];
    let (i, hit) = nearest_hit(&scene, &forward(), visible()).expect("the ray meets the sheets");
    assert_eq!(i, 1);
    assert_eq!(float(hit.t), 2.);
}

#[test]
fn nearest_hit_in_an_empty_scene_is_none() {
    let scene: Vec<Entity> = Vec::new();
    assert!(nearest_hit(&scene, &forward(), visible()).is_none());
}

#[test]
fn nearest_hit_ignores_what_lies_outside_the_range() {
    let scene = vec![sheet(0.0005, 0.5), sheet(9., 0.5), sheet(0.001, 0.5)];
    let (i, hit) = nearest_hit(&scene, &forward(), visible()).expect("the ray meets a sheet");
    assert_eq!(i, 1);
    assert_eq!(float(hit.t), 9.);
    assert!(nearest_hit(&scene, &forward(), (num(0.001), num(9.))).is_none());
    let (j, _) = nearest_hit(&scene, &forward(), (num(0.), num(9.))).expect("two sheets are near");
    assert_eq!(j, 0);
}

#[test]
fn nearest_hit_among_spheres() {
    let ball = |radius: f64, z: f64| {
        Entity::new(
            Box::new(Ball(Sphere::new(num(radius), point(0., 0., z)))),
            Box::new(Paint { decay: vector(0.5, 0.5, 0.5) }),
        )
    };
    let scene = vec![ball(1., -10.), ball(1., -4.), ball(1., 6.), ball(0.5, -7.)];
    let (i, hit) = nearest_hit(&scene, &forward(), visible()).expect("the ray meets a sphere");
    assert_eq!(i, 1);
    assert_eq!(float(hit.t), 3.);
    assert!(hit.exterior);
    assert_eq!(hit.point, point(0., 0., -3.));
}

#[test]
fn scattering_uses_the_surface_of_the_nearest_entity() {
    let scene = vec![sheet(5., 0.1), sheet(2., 0.2), sheet(3., 0.3)];
    let scattered = scattering(&scene, &forward(), visible()).expect("the ray meets the sheets");
    assert_eq!(scattered.decay, vector(0.2, 0.2, 0.2));
    assert_eq!(scattered.ray.direction, vector(0., 1., 0.));
}

#[test]
fn scattering_in_an_empty_scene_is_none() {
    let scene: Vec<Entity> = Vec::new();
    assert!(scattering(&scene, &forward(), visible()).is_none());
}

#[test]
fn empty_scene_shows_background() {
    let scene: Vec<Entity> = Vec::new();
    for direction in [vector(0., 0., -1.), vector(0., 1., 0.), vector(3., -4., 12.)] {
        let ray = Ray::new(point(0., 0., 0.), direction);
        let path = trace(ray, &scene, MAX_SCATTER);
        assert!(path.bounces.is_empty());
        assert_eq!(path.end, PathEnd::Background { direction });
        assert!(!path.is_dark());
        let d = na::Vector3::new(float(direction.x), float(direction.y), float(direction.z));
        let alpha = 0.5 * (d.normalize().y + 1.);
        let expected = (1. - alpha) * na::Vector3::new(1., 1., 1.) + alpha * na::Vector3::new(0.5, 0.7, 1.);
        assert_eq!(colour(&path), expected);
    }
}

#[test]
fn empty_scene_background_values() {
    let scene: Vec<Entity> = Vec::new();
    let up = Camera::render_ray(Ray::new(point(0., 0., 0.), vector(0., 2., 0.)), &scene);
    assert_eq!(colour(&up), na::Vector3::new(0.5, 0.7, 1.));
    let down = Camera::render_ray(Ray::new(point(0., 0., 0.), vector(0., -2., 0.)), &scene);
    assert_eq!(colour(&down), na::Vector3::new(1., 1., 1.));
    let level = Camera::render_ray(Ray::new(point(0., 0., 0.), vector(1., 0., 0.)), &scene);
    assert_eq!(colour(&level), na::Vector3::new(0.75, 0.85, 1.));
}

#[test]
fn absorbing_scene_is_black() {
    let scene = vec![sheet(5., 0.), sheet(2., 1e-9), sheet(3., 0.)];
    let path = trace(forward(), &scene, MAX_SCATTER);
    assert!(path.bounces.is_empty());
    assert_eq!(path.end, PathEnd::Absorbed);
    assert!(path.is_dark());
    assert_eq!(colour(&path), na::Vector3::zeros());
}

#[test]
fn absorbing_sphere_is_black() {
    let scene = vec![Entity::new(
        Box::new(Ball(Sphere::new(num(1.), point(0., 0., -5.)))),
        Box::new(Paint { decay: vector(0., 0., 0.) }),
    )];
    let path = Camera::render_ray(forward(), &scene);
    assert!(path.bounces.is_empty());
    assert_eq!(path.end, PathEnd::Absorbed);
    assert_eq!(colour(&path), na::Vector3::zeros());
}

#[test]
fn path_that_never_ends_is_cut_at_the_cap() {
    let scene = vec![sheet(1., 0.5)];
    let path = trace(forward(), &scene, MAX_SCATTER);
    assert_eq!(path.bounces.len(), 50);
    assert_eq!(path.end, PathEnd::Exhausted);
    assert!(path.is_dark());
    assert_eq!(colour(&path), na::Vector3::zeros());
    let short = trace(forward(), &scene, 3);
    assert_eq!(short.bounces.len(), 3);
    assert_eq!(short.end, PathEnd::Exhausted);
}

#[test]
fn no_scatter_allowed_is_exhausted_at_once() {
    let scene = vec![sheet(1., 0.5)];
    let path = trace(forward(), &scene, 0);
    assert!(path.bounces.is_empty());
    assert_eq!(path.end, PathEnd::Exhausted);
    let empty: Vec<Entity> = Vec::new();
    let nothing = trace(forward(), &empty, 0);
    assert_eq!(nothing.end, PathEnd::Exhausted);
}

#[test]
fn ground_seen_from_above_with_one_scatter() {
    let scene = vec![ground(0.5, na::Vector3::new(0., 1., 0.))];
    let down = Ray::new(point(0., 3., 0.), vector(0., -1., 0.));
    let cut = trace(down, &scene, 1);
    assert_eq!(cut.bounces.len(), 1);
    assert_eq!(cut.bounces[0].decay, vector(0.5, 0.5, 0.5));
    assert_eq!(cut.bounces[0].ray.origin, point(0., 0., 0.));
    assert_eq!(cut.bounces[0].ray.direction, vector(0., 2., 0.));
    assert_eq!(cut.end, PathEnd::Exhausted);
    assert_eq!(colour(&cut), na::Vector3::zeros());
    let path = trace(down, &scene, 2);
    assert_eq!(path.bounces.len(), 1);
    assert_eq!(path.bounces[0].decay, vector(0.5, 0.5, 0.5));
    assert_eq!(path.end, PathEnd::Background { direction: vector(0., 2., 0.) });
    assert_eq!(colour(&path), na::Vector3::new(0.25, 0.35, 0.5));
}

#[test]
fn ground_with_a_cancelling_draw_scatters_along_the_normal() {
    let scene = vec![ground(0.5, na::Vector3::new(0., -1., 0.))];
    let down = Ray::new(point(0., 3., 0.), vector(0., -1., 0.));
    let path = trace(down, &scene, MAX_SCATTER);
    assert_eq!(path.bounces.len(), 1);
    assert_eq!(path.bounces[0].ray.direction, vector(0., 1., 0.));
    assert_eq!(path.end, PathEnd::Background { direction: vector(0., 1., 0.) });
    assert_eq!(colour(&path), na::Vector3::new(0.25, 0.35, 0.5));
}

#[test]
fn path_between_two_surfaces() {
    let scene = vec![
        ground(0.5, na::Vector3::new(0., 0., 0.)),
        Entity::new(
            Box::new(Ball(Sphere::new(num(1.), point(0., 5., 0.)))),
            Box::new(Paint { decay: vector(0., 0., 0.) }),
        ),
    ];
    let down = Ray::new(point(0., 2., 0.), vector(0., -1., 0.));
    let path = trace(down, &scene, MAX_SCATTER);
    assert_eq!(path.bounces.len(), 1);
    assert_eq!(path.bounces[0].decay, vector(0.5, 0.5, 0.5));
    assert_eq!(path.end, PathEnd::Absorbed);
    assert_eq!(colour(&path), na::Vector3::zeros());
}

#[test]
fn surface_with_a_negative_decay_absorbs() {
    let scene = vec![Entity::new(
        Box::new(Sheet { t: 2. }),
        Box::new(Paint { decay: vector(-1., -1., -1.) }),
    )];
    assert!(absorbs(vector(-1., -1., -1.)));
    let path = trace(forward(), &scene, MAX_SCATTER);
    assert!(path.bounces.is_empty());
    assert_eq!(path.end, PathEnd::Absorbed);
    assert_eq!(colour(&path), na::Vector3::zeros());
    let mixed = vec![sheet(2., 0.5), Entity::new(
        Box::new(Sheet { t: 1. }),
        Box::new(Paint { decay: vector(0.5, f64::NAN, 0.5) }),
    )];
    let spoiled = trace(forward(), &mixed, MAX_SCATTER);
    assert!(spoiled.bounces.is_empty());
    assert_eq!(spoiled.end, PathEnd::Absorbed);
}

#[test]
fn scattering_asks_the_surface_about_the_incoming_ray() {
    struct Echo;
    impl Material for Echo {
        fn decay(&self) -> Vector3 {
            vector(1., 1., 1.)
        }

        fn sends(&self, ray: Ray, hit: GeometryHit, out: ScatteredRay) -> bool {
            out.ray == Ray::new(hit.point, ray.direction) && out.decay == vector(1., 1., 1.)
        }

        fn scatter(&self, ray: &Ray, hit: &GeometryHit) -> ScatteredRay {
            ScatteredRay { ray: Ray::new(hit.point, ray.direction), decay: vector(1., 1., 1.) }
        }
    }
    let scene = vec![Entity::new(Box::new(Sheet { t: 2. }), Box::new(Echo))];
    let ray = Ray::new(point(1., 2., 3.), vector(0.25, -4., 8.));
    let scattered = scattering(&scene, &ray, visible()).expect("the ray meets the sheet");
    assert_eq!(scattered.ray.direction, vector(0.25, -4., 8.));
    assert_eq!(scattered.ray.origin, point(1., 2., 3.));
}

#[test]
fn nearest_sphere_does_not_depend_on_the_order() {
    let centres = [-10., -4., 6., -7., -25.];
    let orders: [[usize; 5]; 4] = [[0, 1, 2, 3, 4], [4, 3, 2, 1, 0], [1, 0, 4, 2, 3], [3, 4, 0, 2, 1]];
    for order in orders {
        let scene: Vec<Entity> = order
            .iter()
            .map(|&k| {
                Entity::new(
                    Box::new(Ball(Sphere::new(num(1.), point(0., 0., centres[k])))),
                    Box::new(Paint { decay: vector(0.5, 0.5, 0.5) }),
                )
            })
            .collect();
        let (i, hit) = nearest_hit(&scene, &forward(), visible()).expect("the ray meets a sphere");
        assert_eq!(order[i], 1);
        assert_eq!(float(hit.t), 3.);
        assert_eq!(hit.point, point(0., 0., -3.));
    }
}
