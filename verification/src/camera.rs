//! The camera: the size of the picture, the path of light back from one
//! pixel, and the layout of a rendered frame.

use crate::entity::material::{absorbs, absorbs_spec, ScatteredRay};
use crate::entity::{nearest_hit_spec, scattering, Entity};
use crate::ray::Ray;
use crate::scalar::{Scalar, INFINITY_BITS, ONE_BITS, QUARTER_TURN_BITS, SIGN_BIT, TEN_BITS};
use crate::vector::{Point3, Vector3};
use vstd::prelude::*;

verus! {

/// How often a ray is sent on before it counts as lost.
pub const MAX_SCATTER: u32 = 50;

/// How many rays are averaged for one pixel.
pub const SAMPLING: u32 = 500;

/// The bit pattern of `0.001`. A meeting nearer than this is the surface that
/// the ray has just left.
pub const SHADOW_BIAS_BITS: u64 = 0x3f50_624d_d2f1_a9fc;

/// The ray parameters at which a surface is seen: from just off the ray's
/// origin to infinity.
pub open spec fn visible_range() -> (Scalar, Scalar) {
    (Scalar { bits: SHADOW_BIAS_BITS }, Scalar { bits: INFINITY_BITS })
}

/// How a light path ends.
#[derive(Clone, Copy, Debug, PartialEq, Eq)]
pub enum PathEnd {
    /// The last ray met nothing: it sees the background in its direction.
    Background { direction: Vector3 },
    /// The last ray met a surface that lets no light through.
    Absorbed,
    /// The ray was sent on as often as allowed.
    Exhausted,
}

/// The path of light back from the camera: the rays after each surface, with
/// what each surface lets through, and how the path ends.
///
/// The colour seen along the path is the colour at its end (the background in
/// the last direction, or black for a path that was absorbed or exhausted)
/// times every decay along it.
#[derive(Debug)]
pub struct LightPath {
    pub bounces: Vec<ScatteredRay>,
    pub end: PathEnd,
}

/// The ray that travels after `k` surfaces along `bounces`; `start` is the ray
/// that left the camera.
pub open spec fn ray_after(start: Ray, bounces: Seq<ScatteredRay>, k: int) -> Ray {
    if k <= 0 {
        start
    } else {
        bounces[k - 1].ray
    }
}

/// Whether bounce `k` comes from the surface that the ray before it met first:
/// it is what that surface sends on for that ray and that meeting, it starts
/// where the surface was met, carries the surface's decay, and lets light
/// through.
pub open spec fn bounce_follows(
    start: Ray,
    objects: Seq<Entity>,
    bounces: Seq<ScatteredRay>,
    k: int,
) -> bool {
    &&& nearest_hit_spec(objects, ray_after(start, bounces, k), visible_range()) matches Some(
        (i, hit),
    ) && objects[i].material.sends(ray_after(start, bounces, k), hit, bounces[k])
        && bounces[k].ray.origin == hit.point && bounces[k].decay == objects[i].material.decay()
    &&& !absorbs_spec(bounces[k].decay)
}

impl LightPath {
    /// Whether this is a path of the ray `start` through `objects` with at
    /// most `max_scatter` surfaces on it: every bounce starts at the surface
    /// that the ray before it met first and carries that surface's decay,
    /// which lets light through; and the path ends at the first ray that
    /// meets nothing, or meets a surface that lets nothing through, or comes
    /// after `max_scatter` surfaces.
    pub open spec fn traces(self, start: Ray, objects: Seq<Entity>, max_scatter: int) -> bool {
        let n = self.bounces@.len() as int;
        let last = nearest_hit_spec(objects, ray_after(start, self.bounces@, n), visible_range());
        &&& n <= max_scatter
        &&& forall|k: int|
            0 <= k < n ==> #[trigger] bounce_follows(start, objects, self.bounces@, k)
        &&& match self.end {
            PathEnd::Exhausted => n == max_scatter,
            PathEnd::Absorbed => n < max_scatter && (last matches Some((i, _)) && absorbs_spec(
                objects[i].material.decay(),
            )),
            PathEnd::Background { direction } => n < max_scatter && last.is_none() && direction
                == ray_after(start, self.bounces@, n).direction,
        }
    }

    /// Whether no light comes along the path: it ends on a surface or in
    /// exhaustion, where the colour is black.
    pub open spec fn is_dark_spec(self) -> bool {
        self.end == PathEnd::Absorbed || self.end == PathEnd::Exhausted
    }

    /// Whether no light comes along the path, so that its colour is black.
    pub fn is_dark(&self) -> (dark: bool)
        ensures
            dark == self.is_dark_spec(),
    {
        match self.end {
            PathEnd::Background { .. } => false,
            _ => true,
        }
    }
}

/// Follows `ray` through `objects` until it meets nothing, is absorbed, or
/// has been sent on `max_scatter` times.
pub fn trace(ray: Ray, objects: &[Entity], max_scatter: u32) -> (path: LightPath)
    ensures
        path.traces(ray, objects@, max_scatter as int),
{
    let t_range = (Scalar::from_bits(SHADOW_BIAS_BITS), Scalar::infinity());
    let mut bounces: Vec<ScatteredRay> = Vec::new();
    let mut current = ray;
    let mut scatter: u32 = 0;
    while scatter < max_scatter
        invariant
            t_range == visible_range(),
            scatter <= max_scatter,
            scatter == bounces@.len(),
            current == ray_after(ray, bounces@, scatter as int),
            forall|k: int|
                0 <= k < scatter ==> #[trigger] bounce_follows(ray, objects@, bounces@, k),
        decreases max_scatter - scatter,
    {
        match scattering(objects, &current, t_range) {
            Some(scattered) => {
                if absorbs(scattered.decay) {
                    return LightPath { bounces, end: PathEnd::Absorbed };
                }
                let ghost before = bounces@;
                bounces.push(scattered);
                proof {
                    assert forall|k: int| 0 <= k < scatter + 1 implies #[trigger] bounce_follows(
                        ray,
                        objects@,
                        bounces@,
                        k,
                    ) by {
                        if k < scatter {
                            assert(bounce_follows(ray, objects@, before, k));
                            assert(ray_after(ray, bounces@, k) == ray_after(ray, before, k));
                        }
                    }
                }
                current = scattered.ray;
                scatter += 1;
            },
            None => {
                let end = PathEnd::Background { direction: current.direction };
                return LightPath { bounces, end };
            },
        }
    }
    LightPath { bounces, end: PathEnd::Exhausted }
}

/// In a scene without entities every ray sees the background in its own
/// direction, untouched.
pub proof fn lemma_empty_scene_shows_background(path: LightPath, ray: Ray, max_scatter: int)
    requires
        0 < max_scatter,
        path.traces(ray, Seq::<Entity>::empty(), max_scatter),
    ensures
        path.bounces@.len() == 0,
        path.end == (PathEnd::Background { direction: ray.direction }),
{
    let n = path.bounces@.len() as int;
    if n > 0 {
        assert(bounce_follows(ray, Seq::<Entity>::empty(), path.bounces@, 0));
    }
}

/// In a scene whose surfaces all let no light through, a ray that meets one
/// is absorbed there: its path has no bounce and is dark.
pub proof fn lemma_absorbing_scene_is_dark(
    path: LightPath,
    ray: Ray,
    objects: Seq<Entity>,
    max_scatter: int,
)
    requires
        0 < max_scatter,
        path.traces(ray, objects, max_scatter),
        forall|i: int|
            0 <= i < objects.len() ==> absorbs_spec(#[trigger] objects[i].material.decay()),
        nearest_hit_spec(objects, ray, visible_range()).is_some(),
    ensures
        path.bounces@.len() == 0,
        path.end == PathEnd::Absorbed,
        path.is_dark_spec(),
{
    crate::entity::lemma_nearest_hit_some(objects, ray, visible_range());
    let n = path.bounces@.len() as int;
    if n > 0 {
        assert(bounce_follows(ray, objects, path.bounces@, 0));
    }
}

/// Why a camera cannot be built.
#[derive(Clone, Copy, Debug, PartialEq, Eq)]
pub enum CameraError {
    /// Fewer than two of width, height and aspect ratio were given.
    MissingSize,
}

/// What the builder knows of the picture's size.
#[derive(Clone, Copy, Debug, PartialEq, Eq)]
pub enum ImageSize {
    /// Both sides were given.
    Given { width: u32, height: u32 },
    /// The width is the height times the aspect ratio, rounded.
    FromHeight { height: u32, ratio: Scalar },
    /// The height is the width over the aspect ratio, rounded.
    FromWidth { width: u32, ratio: Scalar },
}

/// What is derived from the builder's numbers by vector arithmetic: the steps
/// from pixel to pixel, the corner of the picture, and the lens.
#[derive(Clone, Copy, Debug, PartialEq, Eq)]
pub struct Frame {
    /// The step between two pixels side by side, left to right.
    pub pixel_du: Vector3,
    /// The step between two pixels one above the other, top to bottom.
    pub pixel_dv: Vector3,
    /// The top left corner of the picture.
    pub base_pixel_loc: Point3,
    /// The horizontal radius of the disk from which rays start.
    pub defocus_u: Vector3,
    /// The vertical radius of the disk from which rays start.
    pub defocus_v: Vector3,
}

/// Collects the numbers that describe a camera.
#[derive(Clone, Copy, Debug, PartialEq, Eq)]
pub struct CameraBuilder {
    pub image_width: Option<u32>,
    pub image_height: Option<u32>,
    pub ratio: Option<Scalar>,
    pub look_from: Point3,
    pub look_at: Point3,
    pub up: Vector3,
    pub view_angle: Scalar,
    pub focal_dist: Scalar,
    pub defocus_angle: Scalar,
}

/// A camera, ready to render.
#[derive(Clone, Copy, Debug, PartialEq, Eq)]
pub struct Camera {
    pub image_width: u32,
    pub image_height: u32,
    pub pixel_du: Vector3,
    pub pixel_dv: Vector3,
    /// The centre of the lens: the point the camera looks from.
    pub center: Point3,
    pub base_pixel_loc: Point3,
    pub defocus_u: Vector3,
    pub defocus_v: Vector3,
}

impl CameraBuilder {
    /// The builder before anything is set: no size; looking from the origin
    /// along the negative z axis with the y axis up; a quarter turn of view;
    /// focus at ten; a pinhole.
    pub open spec fn new_spec() -> CameraBuilder {
        CameraBuilder {
            image_width: None,
            image_height: None,
            ratio: None,
            look_from: Point3 {
                x: Scalar { bits: 0 },
                y: Scalar { bits: 0 },
                z: Scalar { bits: 0 },
            },
            look_at: Point3 {
                x: Scalar { bits: 0 },
                y: Scalar { bits: 0 },
                z: Scalar { bits: (SIGN_BIT + ONE_BITS) as u64 },
            },
            up: Vector3 {
                x: Scalar { bits: 0 },
                y: Scalar { bits: ONE_BITS },
                z: Scalar { bits: 0 },
            },
            view_angle: Scalar { bits: QUARTER_TURN_BITS },
            focal_dist: Scalar { bits: TEN_BITS },
            defocus_angle: Scalar { bits: 0 },
        }
    }

    /// The size of the picture as far as it is given: both sides, or one side
    /// and the aspect ratio. With both sides the ratio is not looked at. With
    /// fewer than two of the three there is no size.
    pub open spec fn image_size_spec(self) -> Result<ImageSize, CameraError> {
        match (self.image_width, self.image_height, self.ratio) {
            (Some(width), Some(height), _) => Ok(ImageSize::Given { width, height }),
            (None, Some(height), Some(ratio)) => Ok(ImageSize::FromHeight { height, ratio }),
            (Some(width), None, Some(ratio)) => Ok(ImageSize::FromWidth { width, ratio }),
            _ => Err(CameraError::MissingSize),
        }
    }

    /// How many of width, height and aspect ratio are set.
    pub open spec fn sizes_given(self) -> int {
        (if self.image_width.is_some() {
            1int
        } else {
            0int
        }) + (if self.image_height.is_some() {
            1int
        } else {
            0int
        }) + (if self.ratio.is_some() {
            1int
        } else {
            0int
        })
    }

    /// The size of the picture in pixels. A side that is not set is `derived`,
    /// rounded to the nearest whole number.
    pub open spec fn resolve_size_spec(self, derived: Scalar) -> Result<(u32, u32), CameraError> {
        match self.image_size_spec() {
            Ok(ImageSize::Given { width, height }) => Ok((width, height)),
            Ok(ImageSize::FromHeight { height, .. }) => Ok(
                (derived.round_to_u32_spec() as u32, height),
            ),
            Ok(ImageSize::FromWidth { width, .. }) => Ok(
                (width, derived.round_to_u32_spec() as u32),
            ),
            Err(e) => Err(e),
        }
    }

    /// A builder with nothing set but the defaults.
    pub fn new() -> (builder: CameraBuilder)
        ensures
            builder == CameraBuilder::new_spec(),
    {
        CameraBuilder {
            image_width: None,
            image_height: None,
            ratio: None,
            look_from: Point3::from_bits(0, 0, 0),
            look_at: Point3::from_bits(0, 0, SIGN_BIT + ONE_BITS),
            up: Vector3::from_bits(0, ONE_BITS, 0),
            view_angle: Scalar::from_bits(QUARTER_TURN_BITS),
            focal_dist: Scalar::from_bits(TEN_BITS),
            defocus_angle: Scalar::from_bits(0),
        }
    }

    /// Sets the width of the picture, in pixels.
    pub fn image_width(self, width: u32) -> (builder: CameraBuilder)
        ensures
            builder == (CameraBuilder { image_width: Some(width), ..self }),
    {
        CameraBuilder { image_width: Some(width), ..self }
    }

    /// Sets the height of the picture, in pixels.
    pub fn image_height(self, height: u32) -> (builder: CameraBuilder)
        ensures
            builder == (CameraBuilder { image_height: Some(height), ..self }),
    {
        CameraBuilder { image_height: Some(height), ..self }
    }

    /// Sets the aspect ratio: width over height.
    pub fn ratio(self, ratio: Scalar) -> (builder: CameraBuilder)
        ensures
            builder == (CameraBuilder { ratio: Some(ratio), ..self }),
    {
        CameraBuilder { ratio: Some(ratio), ..self }
    }

    /// Sets the distance at which the picture is sharp.
    pub fn focal_dist(self, dist: Scalar) -> (builder: CameraBuilder)
        ensures
            builder == (CameraBuilder { focal_dist: dist, ..self }),
    {
        CameraBuilder { focal_dist: dist, ..self }
    }

    /// Sets the angle of the cone of rays through the lens; zero is a pinhole.
    pub fn defocus_angle(self, angle: Scalar) -> (builder: CameraBuilder)
        ensures
            builder == (CameraBuilder { defocus_angle: angle, ..self }),
    {
        CameraBuilder { defocus_angle: angle, ..self }
    }

    /// Sets the point the camera looks from.
    pub fn look_from(self, point: Point3) -> (builder: CameraBuilder)
        ensures
            builder == (CameraBuilder { look_from: point, ..self }),
    {
        CameraBuilder { look_from: point, ..self }
    }

    /// Sets the point the camera looks at.
    pub fn look_at(self, point: Point3) -> (builder: CameraBuilder)
        ensures
            builder == (CameraBuilder { look_at: point, ..self }),
    {
        CameraBuilder { look_at: point, ..self }
    }

    /// Sets the direction that is up in the picture.
    pub fn up(self, up: Vector3) -> (builder: CameraBuilder)
        ensures
            builder == (CameraBuilder { up, ..self }),
    {
        CameraBuilder { up, ..self }
    }

    /// Sets the vertical angle of view, in radians.
    pub fn view_angle(self, angle: Scalar) -> (builder: CameraBuilder)
        ensures
            builder == (CameraBuilder { view_angle: angle, ..self }),
    {
        CameraBuilder { view_angle: angle, ..self }
    }

    /// The size of the picture as far as it is given, and which side is still
    /// to be derived from the aspect ratio. It fails exactly where fewer than
    /// two of width, height and aspect ratio are set.
    pub fn image_size(&self) -> (size: Result<ImageSize, CameraError>)
        ensures
            size == self.image_size_spec(),
            size.is_ok() <==> self.sizes_given() >= 2,
            size.is_err() ==> size == Err::<ImageSize, CameraError>(CameraError::MissingSize),
    {
        match (self.image_width, self.image_height, self.ratio) {
            (Some(width), Some(height), _) => Ok(ImageSize::Given { width, height }),
            (None, Some(height), Some(ratio)) => Ok(ImageSize::FromHeight { height, ratio }),
            (Some(width), None, Some(ratio)) => Ok(ImageSize::FromWidth { width, ratio }),
            _ => Err(CameraError::MissingSize),
        }
    }

    /// The size of the picture in pixels: width, then height. `derived` is
    /// the side that is not set, as the other side and the aspect ratio give
    /// it before rounding: the height times the ratio for the width, the
    /// width over the ratio for the height. Where both sides are set it is not
    /// looked at. It fails exactly where fewer than two of width, height and
    /// aspect ratio are set.
    pub fn resolve_size(&self, derived: Scalar) -> (size: Result<(u32, u32), CameraError>)
        ensures
            size == self.resolve_size_spec(derived),
            size.is_ok() <==> self.sizes_given() >= 2,
    {
        match self.image_size() {
            Ok(ImageSize::Given { width, height }) => Ok((width, height)),
            Ok(ImageSize::FromHeight { height, .. }) => Ok((derived.round_to_u32(), height)),
            Ok(ImageSize::FromWidth { width, .. }) => Ok((width, derived.round_to_u32())),
            Err(e) => Err(e),
        }
    }

    /// Builds the camera: the picture has the size that `resolve_size` gives
    /// for `derived`, the lens is at the point the camera looks from, and the
    /// rest is the `frame` that was derived for that size. It fails exactly
    /// where fewer than two of width, height and aspect ratio are set.
    pub fn build(self, derived: Scalar, frame: Frame) -> (camera: Result<Camera, CameraError>)
        ensures
            camera == match self.resolve_size_spec(derived) {
                Ok((width, height)) => Ok::<Camera, CameraError>(
                    Camera {
                        image_width: width,
                        image_height: height,
                        pixel_du: frame.pixel_du,
                        pixel_dv: frame.pixel_dv,
                        center: self.look_from,
                        base_pixel_loc: frame.base_pixel_loc,
                        defocus_u: frame.defocus_u,
                        defocus_v: frame.defocus_v,
                    },
                ),
                Err(e) => Err::<Camera, CameraError>(e),
            },
            camera.is_ok() <==> self.sizes_given() >= 2,
    {
        match self.resolve_size(derived) {
            Ok((width, height)) => Ok(
                Camera {
                    image_width: width,
                    image_height: height,
                    pixel_du: frame.pixel_du,
                    pixel_dv: frame.pixel_dv,
                    center: self.look_from,
                    base_pixel_loc: frame.base_pixel_loc,
                    defocus_u: frame.defocus_u,
                    defocus_v: frame.defocus_v,
                },
            ),
            Err(e) => Err(e),
        }
    }
}

impl Default for CameraBuilder {
    fn default() -> (builder: CameraBuilder)
        ensures
            builder == CameraBuilder::new_spec(),
    {
        CameraBuilder::new()
    }
}

/// In a frame `width` pixels wide, a pixel that comes earlier in reading order
/// (row by row from the top, each row from the left) has the smaller number.
pub proof fn lemma_reading_order(width: int, x1: int, y1: int, x2: int, y2: int)
    requires
        0 <= x1 < width,
        0 <= x2 <= width,
        0 <= y1,
        y1 < y2 || (y1 == y2 && x1 < x2),
    ensures
        y1 * width + x1 < y2 * width + x2,
{
    if y1 < y2 {
        assert((y1 + 1) * width <= y2 * width) by (nonlinear_arith)
            requires
                y1 + 1 <= y2,
                0 <= width,
        ;
        assert((y1 + 1) * width == y1 * width + width) by (nonlinear_arith);
    }
}

/// Whether `pixel` is a colour of the pixel in column `x` of row `y`: `sample`
/// drew a ray through the pixel, the ray was followed through `objects` for at
/// most `MAX_SCATTER` surfaces, and `colour` gave `pixel` for its path.
pub open spec fn pixel_rendered<S: Fn(u32, u32) -> Ray, C: Fn(LightPath) -> Vector3>(
    objects: Seq<Entity>,
    sample: S,
    colour: C,
    x: u32,
    y: u32,
    pixel: Vector3,
) -> bool {
    exists|ray: Ray, path: LightPath|
        call_ensures(sample, (x, y), ray) && #[trigger] path.traces(
            ray,
            objects,
            MAX_SCATTER as int,
        ) && call_ensures(colour, (path,), pixel)
}

/// In a frame of a scene without entities, every pixel has the colour that
/// `colour` gives for the bare background in the direction of a ray that
/// `sample` drew through the pixel.
pub proof fn lemma_empty_scene_frame<S: Fn(u32, u32) -> Ray, C: Fn(LightPath) -> Vector3>(
    sample: S,
    colour: C,
    x: u32,
    y: u32,
    pixel: Vector3,
)
    requires
        pixel_rendered(Seq::<Entity>::empty(), sample, colour, x, y, pixel),
    ensures
        exists|ray: Ray, path: LightPath|
            {
                &&& call_ensures(sample, (x, y), ray)
                &&& #[trigger] path.traces(ray, Seq::<Entity>::empty(), MAX_SCATTER as int)
                &&& path.bounces@.len() == 0
                &&& path.end == (PathEnd::Background { direction: ray.direction })
                &&& call_ensures(colour, (path,), pixel)
            },
{
    let (ray, path): (Ray, LightPath) = choose|ray: Ray, path: LightPath|
        call_ensures(sample, (x, y), ray) && #[trigger] path.traces(
            ray,
            Seq::<Entity>::empty(),
            MAX_SCATTER as int,
        ) && call_ensures(colour, (path,), pixel);
    lemma_empty_scene_shows_background(path, ray, MAX_SCATTER as int);
}

impl Camera {
    /// How many numbers a rendered frame holds: three for each pixel.
    pub open spec fn buffer_len_spec(self) -> int {
        3 * (self.image_height * self.image_width)
    }

    /// Where the pixel in column `x` of row `y` starts in a rendered frame:
    /// rows from the top, each from the left, three numbers a pixel.
    pub open spec fn pixel_offset_spec(self, x: int, y: int) -> int {
        3 * (y * self.image_width + x)
    }

    /// The colour of the pixel in column `x` of row `y` of the frame `buffer`:
    /// red, green and blue, in this order.
    pub open spec fn pixel_spec(self, buffer: Seq<Scalar>, x: int, y: int) -> Vector3 {
        let at = self.pixel_offset_spec(x, y);
        Vector3 { x: buffer[at], y: buffer[at + 1], z: buffer[at + 2] }
    }

    /// The width of the picture, in pixels.
    pub fn width(&self) -> (width: u32)
        ensures
            width == self.image_width,
    {
        self.image_width
    }

    /// The height of the picture, in pixels.
    pub fn height(&self) -> (height: u32)
        ensures
            height == self.image_height,
    {
        self.image_height
    }

    /// Follows `ray` through `objects` for at most `MAX_SCATTER` surfaces.
    pub fn render_ray(ray: Ray, objects: &[Entity]) -> (path: LightPath)
        ensures
            path.traces(ray, objects@, MAX_SCATTER as int),
    {
        trace(ray, objects, MAX_SCATTER)
    }

    /// Renders one frame. For every pixel, row by row from the top and each
    /// row from the left, `sample` draws a ray through the pixel, the ray is
    /// followed through `objects`, and `colour` works out the colour seen
    /// along its path. The colours are laid out in that order, three numbers a
    /// pixel.
    pub fn render_world_single<S, C>(&self, objects: &[Entity], sample: S, colour: C) -> (buffer:
        Vec<Scalar>) where S: Fn(u32, u32) -> Ray, C: Fn(LightPath) -> Vector3
        requires
            forall|x: u32, y: u32|
                x < self.image_width && y < self.image_height ==> call_requires(sample, (x, y)),
            forall|ray: Ray, path: LightPath| #[trigger]
                path.traces(ray, objects@, MAX_SCATTER as int) ==> call_requires(colour, (path,)),
        ensures
            buffer@.len() == self.buffer_len_spec(),
            forall|x: u32, y: u32|
                x < self.image_width && y < self.image_height ==> pixel_rendered(
                    objects@,
                    sample,
                    colour,
                    x,
                    y,
                    #[trigger] self.pixel_spec(buffer@, x as int, y as int),
                ),
    {
        let mut buffer: Vec<Scalar> = Vec::new();
        let mut y: u32 = 0;
        while y < self.image_height
            invariant
                y <= self.image_height,
                buffer@.len() == 3 * (y * self.image_width),
                forall|x: u32, y: u32|
                    x < self.image_width && y < self.image_height ==> call_requires(sample, (x, y)),
                forall|ray: Ray, path: LightPath| #[trigger]
                    path.traces(ray, objects@, MAX_SCATTER as int) ==> call_requires(
                        colour,
                        (path,),
                    ),
                forall|px: u32, py: u32|
                    px < self.image_width && py < y ==> pixel_rendered(
                        objects@,
                        sample,
                        colour,
                        px,
                        py,
                        #[trigger] self.pixel_spec(buffer@, px as int, py as int),
                    ),
            decreases self.image_height - y,
        {
            let mut x: u32 = 0;
            while x < self.image_width
                invariant
                    y < self.image_height,
                    x <= self.image_width,
                    buffer@.len() == 3 * (y * self.image_width + x),
                    forall|x: u32, y: u32|
                        x < self.image_width && y < self.image_height ==> call_requires(
                            sample,
                            (x, y),
                        ),
                    forall|ray: Ray, path: LightPath| #[trigger]
                        path.traces(ray, objects@, MAX_SCATTER as int) ==> call_requires(
                            colour,
                            (path,),
                        ),
                    forall|px: u32, py: u32|
                        px < self.image_width && (py < y || (py == y && px < x))
                            ==> pixel_rendered(
                            objects@,
                            sample,
                            colour,
                            px,
                            py,
                            #[trigger] self.pixel_spec(buffer@, px as int, py as int),
                        ),
                decreases self.image_width - x,
            {
                let ray = sample(x, y);
                let path = Camera::render_ray(ray, objects);
                let ghost followed = path;
                let seen = colour(path);
                let ghost before = buffer@;
                buffer.push(seen.x);
                buffer.push(seen.y);
                buffer.push(seen.z);
                proof {
                    assert(self.pixel_spec(buffer@, x as int, y as int) == seen);
                    assert(call_ensures(sample, (x, y), ray) && followed.traces(
                        ray,
                        objects@,
                        MAX_SCATTER as int,
                    ) && call_ensures(colour, (followed,), seen));
                    assert forall|px: u32, py: u32|
                        px < self.image_width && (py < y || (py == y && px < x + 1))
                        implies pixel_rendered(
                        objects@,
                        sample,
                        colour,
                        px,
                        py,
                        #[trigger] self.pixel_spec(buffer@, px as int, py as int),
                    ) by {
                        if py < y || px < x {
                            lemma_reading_order(
                                self.image_width as int,
                                px as int,
                                py as int,
                                x as int,
                                y as int,
                            );
                            assert(self.pixel_spec(buffer@, px as int, py as int)
                                == self.pixel_spec(before, px as int, py as int));
                        }
                    }
                }
                x += 1;
            }
            proof {
                assert((y + 1) * self.image_width == y * self.image_width + self.image_width)
                    by (nonlinear_arith);
            }
            y += 1;
        }
        buffer
    }
}

} // verus!
