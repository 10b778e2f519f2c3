//! The camera: its configuration, the bookkeeping of a path of bounces, the
//! split of samples among workers, and the image as text.
use crate::color::{channel_spec, decimal, pixel_line, push_decimal, write_color, Color, NEWLINE, SPACE};
use crate::geometry::hittable::{HitRecord, Hittable, HittableList};
use crate::interval::Interval;
use crate::material::{Material, Scatter};
use crate::ray::Ray;
use crate::scalar::{Scalar, INFINITY_BITS};
use crate::vec3::{Point3, Vector3, DEGENERATE_BITS};
use vstd::prelude::*;

verus! {

/// The number of workers among which the samples of one pixel are split.
pub const WORKERS: u32 = 4;

/// The ray parameter below which a surface is not looked for, so that a
/// bounced ray does not meet the surface it left: the binary64 value
/// written `0.001`.
pub const T_MIN_BITS: u64 = 0x3F50_624D_D2F1_A9FC;

/// Why a configuration gives no camera.
#[derive(Clone, Copy, Debug, PartialEq, Eq, Structural)]
pub enum ConfigError {
    /// The image has no columns.
    ZeroWidth,
    /// The camera looks at the point where it stands.
    DegenerateLook,
    /// The up direction runs along the line of sight.
    DegenerateUp,
}

/// Why a pixel buffer gives no image.
#[derive(Clone, Copy, Debug, PartialEq, Eq, Structural)]
pub enum RenderError {
    /// The buffer does not hold one colour for each pixel.
    PixelCount,
}

/// What the camera is to be: the values that its user sets.
#[derive(Clone, Copy, Debug)]
pub struct Builder {
    pub image_width: u32,
    pub image_aspect_ratio: Scalar,
    pub vup: Vector3,
    pub lookfrom: Point3,
    pub lookat: Point3,
    pub vfov: Scalar,
    pub defocus_angle: Scalar,
    pub focus_dist: Scalar,
    pub samples_per_pixel: u32,
    pub max_depth: u32,
}

/// What arithmetic makes of a `Builder`: the caller computes these from the
/// builder's own fields and hands them to `build`.
#[derive(Clone, Copy, Debug)]
pub struct Optics {
    /// The image width divided by the aspect ratio.
    pub height_quotient: Scalar,
    /// The squared distance from `lookfrom` to `lookat`.
    pub look_length_squared: Scalar,
    /// The squared length of the cross product of `vup` and the unit
    /// vector from `lookat` to `lookfrom`.
    pub side_length_squared: Scalar,
    /// The step from one pixel to the next in a row.
    pub pixel_delta_u: Vector3,
    /// The step from one row to the next.
    pub pixel_delta_v: Vector3,
    /// The centre of the first pixel of the first row.
    pub pixel00_loc: Point3,
    /// The horizontal radius of the defocus disk.
    pub defocus_disk_u: Vector3,
    /// The vertical radius of the defocus disk.
    pub defocus_disk_v: Vector3,
}

/// The camera of one render.
#[derive(Clone, Copy, Debug)]
pub struct Camera {
    pub image_width: u32,
    pub image_height: u32,
    pub pixel_delta_u: Point3,
    pub pixel_delta_v: Point3,
    pub pixel00_loc: Point3,
    pub defocus_disk_u: Vector3,
    pub defocus_disk_v: Vector3,
    pub defocus_angle: Scalar,
    pub center: Point3,
    pub samples_per_pixel: u32,
    pub max_depth: u32,
}

/// How a path of bounces ended.
#[derive(Clone, Copy, Debug, PartialEq, Eq, Structural)]
pub enum PathEnd {
    /// The bounces allowed were used up: the path carries no light.
    Exhausted,
    /// A surface absorbed the ray: the path carries no light.
    Absorbed,
    /// The ray left the scene: the path carries the light of the sky along
    /// its last ray.
    Escaped,
}

/// What became of a ray at one step of its path.
#[derive(Clone, Copy, Debug)]
pub enum Bounce {
    /// It met no surface.
    Missed,
    /// It met a surface that sent nothing on.
    Absorbed,
    /// It met a surface that sent a ray on.
    Scattered(Scatter),
}

/// The path of one ray through the scene: the attenuation of each bounce in
/// order, the last ray, and how the path ended. The colour that the path
/// carries is the light at its end multiplied, channel by channel, by every
/// attenuation, the last one first.
pub struct Path {
    pub attenuations: Vec<Color>,
    pub last: Ray,
    pub end: PathEnd,
}

/// The height of an image for the quotient of its width by its aspect
/// ratio: the quotient rounded to the nearest integer, and at least one.
pub open spec fn image_height_spec(quotient: Scalar) -> nat {
    if quotient.round_u32_spec() < 1 {
        1
    } else {
        quotient.round_u32_spec()
    }
}

/// The number of samples that the worker `worker` takes of `samples`: an
/// equal part, and one more for the first workers while the remainder
/// lasts.
pub open spec fn share_spec(samples: nat, worker: nat) -> nat {
    if worker >= WORKERS {
        0
    } else if worker < samples % (WORKERS as nat) {
        samples / (WORKERS as nat) + 1
    } else {
        samples / (WORKERS as nat)
    }
}

/// The head of the image text: the format, the width and the height, and
/// the largest channel value.
pub open spec fn header_spec(width: nat, height: nat) -> Seq<u8> {
    seq![80u8, 51u8, NEWLINE] + decimal(width).push(SPACE) + decimal(height).push(NEWLINE)
        + seq![50u8, 53u8, 53u8, NEWLINE]
}

/// The lines of the pixels, one after another.
pub open spec fn lines_spec(pixels: Seq<Color>) -> Seq<u8>
    decreases pixels.len(),
{
    if pixels.len() == 0 {
        Seq::<u8>::empty()
    } else {
        lines_spec(pixels.drop_last()) + pixel_line(
            channel_spec(pixels.last().x) as u8,
            channel_spec(pixels.last().y) as u8,
            channel_spec(pixels.last().z) as u8,
        )
    }
}

impl Builder {
    /// Whether the configuration gives a camera, and if not, why.
    pub open spec fn verdict(&self, optics: Optics) -> Option<ConfigError> {
        if self.image_width == 0 {
            Some(ConfigError::ZeroWidth)
        } else if optics.look_length_squared.lt_spec(Scalar { bits: DEGENERATE_BITS }) {
            Some(ConfigError::DegenerateLook)
        } else if optics.side_length_squared.lt_spec(Scalar { bits: DEGENERATE_BITS }) {
            Some(ConfigError::DegenerateUp)
        } else {
            None
        }
    }

    /// The camera that the configuration gives with `optics`.
    pub open spec fn camera(&self, optics: Optics) -> Camera {
        Camera {
            image_width: self.image_width,
            image_height: image_height_spec(optics.height_quotient) as u32,
            pixel_delta_u: optics.pixel_delta_u,
            pixel_delta_v: optics.pixel_delta_v,
            pixel00_loc: optics.pixel00_loc,
            defocus_disk_u: optics.defocus_disk_u,
            defocus_disk_v: optics.defocus_disk_v,
            defocus_angle: self.defocus_angle,
            center: self.lookfrom,
            samples_per_pixel: self.samples_per_pixel,
            max_depth: self.max_depth,
        }
    }

    /// The configuration with every number zero.
    pub fn new() -> (r: Builder)
        ensures
            r.image_width == 0 && r.samples_per_pixel == 0 && r.max_depth == 0,
            r.image_aspect_ratio.bits == 0 && r.vfov.bits == 0,
            r.defocus_angle.bits == 0 && r.focus_dist.bits == 0,
            r.vup.x.bits == 0 && r.vup.y.bits == 0 && r.vup.z.bits == 0,
            r.lookfrom.x.bits == 0 && r.lookfrom.y.bits == 0 && r.lookfrom.z.bits == 0,
            r.lookat.x.bits == 0 && r.lookat.y.bits == 0 && r.lookat.z.bits == 0,
    {
        Builder {
            image_width: 0,
            image_aspect_ratio: Scalar::zero(),
            vfov: Scalar::zero(),
            lookfrom: Point3::new_default(),
            lookat: Point3::new_default(),
            vup: Vector3::new_default(),
            defocus_angle: Scalar::zero(),
            focus_dist: Scalar::zero(),
            samples_per_pixel: 0,
            max_depth: 0,
        }
    }

    /// Sets the number of columns of the image.
    pub fn set_image_width(&mut self, width: u32) -> (r: &mut Self)
        ensures
            *r == (Builder { image_width: width, ..*old(self) }),
            *final(self) == *final(r),
    {
        self.image_width = width;
        self
    }

    /// Sets the ratio of the image's width to its height.
    pub fn set_image_aspect_ratio(&mut self, ratio: Scalar) -> (r: &mut Self)
        ensures
            *r == (Builder { image_aspect_ratio: ratio, ..*old(self) }),
            *final(self) == *final(r),
    {
        self.image_aspect_ratio = ratio;
        self
    }

    /// Sets the vertical field of view, in degrees.
    pub fn set_vfov(&mut self, vfov: Scalar) -> (r: &mut Self)
        ensures
            *r == (Builder { vfov: vfov, ..*old(self) }),
            *final(self) == *final(r),
    {
        self.vfov = vfov;
        self
    }

    /// Sets the number of samples that are averaged for each pixel.
    pub fn set_samples_per_pixel(&mut self, samples_per_pixel: u32) -> (r: &mut Self)
        ensures
            *r == (Builder { samples_per_pixel: samples_per_pixel, ..*old(self) }),
            *final(self) == *final(r),
    {
        self.samples_per_pixel = samples_per_pixel;
        self
    }

    /// Sets the number of bounces after which a path is given up.
    pub fn set_max_depth(&mut self, max_depth: u32) -> (r: &mut Self)
        ensures
            *r == (Builder { max_depth: max_depth, ..*old(self) }),
            *final(self) == *final(r),
    {
        self.max_depth = max_depth;
        self
    }

    /// Sets the point where the camera stands.
    pub fn set_lookfrom(&mut self, lookfrom: &Point3) -> (r: &mut Self)
        ensures
            *r == (Builder { lookfrom: *lookfrom, ..*old(self) }),
            *final(self) == *final(r),
    {
        self.lookfrom = *lookfrom;
        self
    }

    /// Sets the point that the camera looks at.
    pub fn set_lookat(&mut self, lookat: &Point3) -> (r: &mut Self)
        ensures
            *r == (Builder { lookat: *lookat, ..*old(self) }),
            *final(self) == *final(r),
    {
        self.lookat = *lookat;
        self
    }

    /// Sets the direction that is up in the image.
    pub fn set_vup(&mut self, vup: &Vector3) -> (r: &mut Self)
        ensures
            *r == (Builder { vup: *vup, ..*old(self) }),
            *final(self) == *final(r),
    {
        self.vup = *vup;
        self
    }

    /// Sets the angle of the defocus cone, in degrees; none at zero or below.
    pub fn set_defocus_angle(&mut self, defocus_angle: Scalar) -> (r: &mut Self)
        ensures
            *r == (Builder { defocus_angle: defocus_angle, ..*old(self) }),
            *final(self) == *final(r),
    {
        self.defocus_angle = defocus_angle;
        self
    }

    /// Sets the distance at which the image is sharp.
    pub fn set_focus_dist(&mut self, focus_dist: Scalar) -> (r: &mut Self)
        ensures
            *r == (Builder { focus_dist: focus_dist, ..*old(self) }),
            *final(self) == *final(r),
    {
        self.focus_dist = focus_dist;
        self
    }

    /// The height of the image, for the quotient of the image width by the
    /// aspect ratio.
    pub fn image_height(quotient: Scalar) -> (r: u32)
        ensures
            r == image_height_spec(quotient),
            r >= 1,
    {
        let rounded = quotient.round_u32();
        if rounded < 1 {
            1
        } else {
            rounded
        }
    }

    /// The camera that the configuration gives, or why it gives none: an
    /// image without columns, a camera that looks at the point where it
    /// stands, or an up direction along the line of sight. The last two
    /// are told by squared lengths under `1e-160`, as in
    /// `Vector3::normalizable`.
    pub fn build(&self, optics: &Optics) -> (r: Result<Camera, ConfigError>)
        ensures
            r == (match self.verdict(*optics) {
                Some(e) => Err::<Camera, ConfigError>(e),
                None => Ok::<Camera, ConfigError>(self.camera(*optics)),
            }),
            r is Ok ==> r->Ok_0.wf(),
    {
        if self.image_width == 0 {
            return Err(ConfigError::ZeroWidth);
        }
        if !Vector3::normalizable(optics.look_length_squared) {
            return Err(ConfigError::DegenerateLook);
        }
        if !Vector3::normalizable(optics.side_length_squared) {
            return Err(ConfigError::DegenerateUp);
        }
        Ok(
            Camera {
                image_width: self.image_width,
                image_height: Builder::image_height(optics.height_quotient),
                pixel_delta_u: optics.pixel_delta_u,
                pixel_delta_v: optics.pixel_delta_v,
                pixel00_loc: optics.pixel00_loc,
                defocus_disk_u: optics.defocus_disk_u,
                defocus_disk_v: optics.defocus_disk_v,
                defocus_angle: self.defocus_angle,
                center: self.lookfrom,
                samples_per_pixel: self.samples_per_pixel,
                max_depth: self.max_depth,
            },
        )
    }
}

impl Camera {
    /// The image has at least one column and one row.
    pub open spec fn wf(&self) -> bool {
        self.image_width >= 1 && self.image_height >= 1
    }

    /// Whether rays start on the defocus disk rather than at the centre:
    /// the defocus angle is not zero or below.
    pub open spec fn defocused_spec(&self) -> bool {
        !self.defocus_angle.le_spec(Scalar { bits: 0 })
    }

    /// The number of pixels.
    pub open spec fn pixel_count(&self) -> nat {
        (self.image_width * self.image_height) as nat
    }

    /// Whether rays start on the defocus disk.
    pub fn defocused(&self) -> (r: bool)
        ensures
            r == self.defocused_spec(),
    {
        !self.defocus_angle.le(Scalar::zero())
    }

    /// The number of samples that one worker takes for each pixel.
    pub fn samples_for(&self, worker: u32) -> (r: u32)
        ensures
            r == share_spec(self.samples_per_pixel as nat, worker as nat),
    {
        if worker >= WORKERS {
            0
        } else if worker < self.samples_per_pixel % WORKERS {
            self.samples_per_pixel / WORKERS + 1
        } else {
            self.samples_per_pixel / WORKERS
        }
    }

    /// The column and the row of the pixel that is written as number
    /// `index`, counting from zero: rows from the top, and within a row
    /// from the left. There is none from the number of pixels on.
    pub fn pixel_at(&self, index: u64) -> (r: Option<(u32, u32)>)
        ensures
            r is None <==> index >= self.pixel_count(),
            (r matches Some((i, j)) ==> i < self.image_width && j < self.image_height && index
                == j * self.image_width + i),
    {
        if self.image_width == 0 {
            return None;
        }
        let width = self.image_width as u64;
        let row = index / width;
        if row >= self.image_height as u64 {
            proof {
                assert(index >= self.pixel_count()) by (nonlinear_arith)
                    requires
                        row == index / width,
                        width > 0,
                        row >= self.image_height,
                        self.pixel_count() == width * self.image_height,
                ;
            }
            return None;
        }
        let column = index % width;
        proof {
            assert(index == row * width + column && index < self.pixel_count())
                by (nonlinear_arith)
                requires
                    row == index / width,
                    column == index % width,
                    width > 0,
                    row < self.image_height,
                    self.pixel_count() == width * self.image_height,
            ;
        }
        Some((column as u32, row as u32))
    }

    /// The head of the image text.
    pub fn header(&self) -> (r: Vec<u8>)
        ensures
            r@ == header_spec(self.image_width as nat, self.image_height as nat),
    {
        let mut out: Vec<u8> = Vec::new();
        out.push(80);
        out.push(51);
        out.push(NEWLINE);
        push_decimal(&mut out, self.image_width);
        out.push(SPACE);
        push_decimal(&mut out, self.image_height);
        out.push(NEWLINE);
        out.push(50);
        out.push(53);
        out.push(53);
        out.push(NEWLINE);
        proof {
            assert(out@ =~= header_spec(self.image_width as nat, self.image_height as nat));
        }
        out
    }

    /// The image as text: the head, then one line for each pixel. `pixels`
    /// holds the gamma-corrected colours row by row from the top, each row
    /// from the left. A buffer of another length than the number of pixels
    /// gives no image.
    pub fn render(&self, pixels: &Vec<Color>) -> (r: Result<Vec<u8>, RenderError>)
        ensures
            r is Err <==> pixels@.len() != self.pixel_count(),
            r is Ok ==> r->Ok_0@ == header_spec(
                self.image_width as nat,
                self.image_height as nat,
            ) + lines_spec(pixels@),
    {
        proof {
            assert(self.image_width * self.image_height <= 0xFFFF_FFFF * 0xFFFF_FFFF)
                by (nonlinear_arith)
                requires
                    self.image_width <= 0xFFFF_FFFF,
                    self.image_height <= 0xFFFF_FFFF,
            ;
        }
        let count = (self.image_width as u64) * (self.image_height as u64);
        if pixels.len() as u64 != count {
            return Err(RenderError::PixelCount);
        }
        let mut out = self.header();
        let ghost head = out@;
        let mut k: usize = 0;
        while k < pixels.len()
            invariant
                k <= pixels@.len(),
                out@ == head + lines_spec(pixels@.take(k as int)),
            decreases pixels@.len() - k,
        {
            write_color(&mut out, &pixels[k]);
            proof {
                let done = pixels@.take(k as int + 1);
                assert(done.drop_last() =~= pixels@.take(k as int));
                assert(done.last() == pixels@[k as int]);
                assert(out@ =~= head + lines_spec(done));
            }
            k += 1;
        }
        proof {
            assert(pixels@.take(k as int) =~= pixels@);
        }
        Ok(out)
    }
}

impl Path {
    /// The path of a ray that has not met anything yet. It counts as
    /// exhausted until a bounce says otherwise.
    pub fn begin(ray: &Ray) -> (r: Path)
        ensures
            r.attenuations@.len() == 0,
            r.last == *ray,
            r.end == PathEnd::Exhausted,
    {
        Path { attenuations: Vec::new(), last: *ray, end: PathEnd::Exhausted }
    }

    /// Takes one bounce into the path, and says whether the ray flies on.
    pub fn record(&mut self, bounce: Bounce) -> (flying: bool)
        ensures
            flying == (bounce is Scattered),
            final(self).attenuations@ == (match bounce {
                Bounce::Scattered(s) => old(self).attenuations@.push(s.attenuation),
                _ => old(self).attenuations@,
            }),
            final(self).last == (match bounce {
                Bounce::Scattered(s) => s.scattered,
                _ => old(self).last,
            }),
            final(self).end == (match bounce {
                Bounce::Scattered(s) => old(self).end,
                Bounce::Absorbed => PathEnd::Absorbed,
                Bounce::Missed => PathEnd::Escaped,
            }),
    {
        match bounce {
            Bounce::Scattered(s) => {
                self.attenuations.push(s.attenuation);
                self.last = s.scattered;
                true
            },
            Bounce::Absorbed => {
                self.end = PathEnd::Absorbed;
                false
            },
            Bounce::Missed => {
                self.end = PathEnd::Escaped;
                false
            },
        }
    }

    /// Whether the path carries no light at all: it was exhausted or
    /// absorbed.
    pub fn is_black(&self) -> (r: bool)
        ensures
            r == (self.end != PathEnd::Escaped),
    {
        match self.end {
            PathEnd::Escaped => false,
            _ => true,
        }
    }
}

impl Camera {
    /// The range of ray parameters in which surfaces are looked for: from
    /// `0.001`, exclusive, without an upper end.
    pub open spec fn query_spec() -> Interval {
        Interval { min: Scalar { bits: T_MIN_BITS }, max: Scalar { bits: INFINITY_BITS } }
    }

    /// The range of ray parameters in which surfaces are looked for.
    pub fn query() -> (r: Interval)
        ensures
            r == Camera::query_spec(),
    {
        Interval::new(Scalar::from_bits(T_MIN_BITS), Scalar::infinity())
    }

    /// Whether `bounce` may be what becomes of `ray` in `world`: a miss
    /// where the scene may answer with none; an absorption where it may
    /// answer with a surface that has no material or whose material may
    /// send nothing on; a scattered ray where the material of such a surface
    /// may send it on.
    pub open spec fn may_bounce<H: Hittable>(
        world: &HittableList<H>,
        ray: Ray,
        bounce: Bounce,
    ) -> bool {
        match bounce {
            Bounce::Missed => world.answers(ray, Camera::query_spec(), None),
            Bounce::Absorbed => exists|rec: HitRecord<H::Mat>|
                #[trigger] world.answers(ray, Camera::query_spec(), Some(rec)) && (rec.mat is None
                    || rec.mat.unwrap().sends(ray, rec, None)),
            Bounce::Scattered(s) => exists|rec: HitRecord<H::Mat>|
                #[trigger] world.answers(ray, Camera::query_spec(), Some(rec)) && rec.mat is Some
                    && rec.mat.unwrap().sends(ray, rec, Some(s)),
        }
    }

    /// Whether the ray number `i` of `rays` may have been scattered into
    /// the next one with the attenuation number `i`.
    pub open spec fn linked<H: Hittable>(
        world: &HittableList<H>,
        rays: Seq<Ray>,
        attenuations: Seq<Color>,
        i: int,
    ) -> bool {
        Camera::may_bounce(
            world,
            rays[i],
            Bounce::Scattered(Scatter { attenuation: attenuations[i], scattered: rays[i + 1] }),
        )
    }

    /// Whether `path` may be the path of `ray` through `world` with at most
    /// `depth` bounces, where `rays` are the rays that flew: the first is
    /// `ray`, each was scattered into the next, and the last one was
    /// missed or absorbed, or is the one at which the bounces ran out.
    pub open spec fn follows<H: Hittable>(
        world: &HittableList<H>,
        ray: Ray,
        depth: u32,
        path: Path,
        rays: Seq<Ray>,
    ) -> bool {
        let n = path.attenuations@.len() as int;
        &&& rays.len() == n + 1
        &&& rays[0] == ray
        &&& rays[n] == path.last
        &&& forall|i: int| 0 <= i < n ==> #[trigger] Camera::linked(world, rays, path.attenuations@, i)
        &&& match path.end {
            PathEnd::Exhausted => n == depth,
            PathEnd::Absorbed => n < depth && Camera::may_bounce(world, rays[n], Bounce::Absorbed),
            PathEnd::Escaped => n < depth && Camera::may_bounce(world, rays[n], Bounce::Missed),
        }
    }

    /// One step of a path: asks the scene for the nearest surface along
    /// `ray`, within `query()`, and that surface's material for the ray it
    /// sends on. A surface without a material sends nothing on. In a scene
    /// without shapes every ray is missed.
    pub fn bounce<H: Hittable>(ray: &Ray, world: &HittableList<H>) -> (r: Bounce)
        ensures
            Camera::may_bounce(world, *ray, r),
            world.objects@.len() == 0 ==> r is Missed,
    {
        match world.hit(ray, Camera::query()) {
            None => Bounce::Missed,
            Some(rec) => match &rec.mat {
                None => Bounce::Absorbed,
                Some(material) => match material.scatter(ray, &rec) {
                    None => Bounce::Absorbed,
                    Some(s) => Bounce::Scattered(s),
                },
            },
        }
    }

    /// Follows `ray` through the scene for at most `depth` bounces.
    ///
    /// With no bounce allowed the path is exhausted at once, whatever the
    /// ray and the scene. Otherwise the path ends where the ray is missed
    /// or absorbed, or is exhausted after `depth` scattered rays.
    pub fn ray_color<H: Hittable>(ray: &Ray, depth: u32, world: &HittableList<H>) -> (path: Path)
        ensures
            exists|rays: Seq<Ray>| #[trigger] Camera::follows(world, *ray, depth, path, rays),
            depth == 0 ==> path.end == PathEnd::Exhausted && path.attenuations@.len() == 0
                && path.last == *ray,
            path.attenuations@.len() <= depth,
            path.end == PathEnd::Exhausted <==> path.attenuations@.len() == depth,
            path.attenuations@.len() == 0 ==> path.last == *ray,
            depth > 0 && world.objects@.len() == 0 ==> path.end == PathEnd::Escaped,
    {
        let mut path = Path::begin(ray);
        let mut left = depth;
        let ghost mut rays: Seq<Ray> = seq![*ray];
        while left > 0
            invariant
                path.attenuations@.len() + left == depth,
                path.end == PathEnd::Exhausted,
                path.attenuations@.len() == 0 ==> path.last == *ray,
                world.objects@.len() == 0 ==> path.attenuations@.len() == 0,
                rays.len() == path.attenuations@.len() + 1,
                rays[0] == *ray,
                rays[path.attenuations@.len() as int] == path.last,
                forall|i: int|
                    0 <= i < path.attenuations@.len() ==> #[trigger] Camera::linked(
                        world,
                        rays,
                        path.attenuations@,
                        i,
                    ),
            decreases left,
        {
            let ghost before = path.attenuations@;
            let ghost flown = rays;
            let found = Camera::bounce(&path.last, world);
            let flying = path.record(found);
            if !flying {
                proof {
                    assert(Camera::follows(world, *ray, depth, path, rays));
                }
                return path;
            }
            proof {
                rays = flown.push(path.last);
                let n = before.len() as int;
                assert forall|i: int| 0 <= i < n + 1 implies #[trigger] Camera::linked(
                    world,
                    rays,
                    path.attenuations@,
                    i,
                ) by {
                    if i < n {
                        assert(Camera::linked(world, flown, before, i));
                    }
                }
            }
            left -= 1;
        }
        proof {
            assert(Camera::follows(world, *ray, depth, path, rays));
        }
        path
    }
}

/// The shares of the workers add up to the number of samples.
pub proof fn lemma_shares_add_up(samples: nat)
    ensures
        share_spec(samples, 0) + share_spec(samples, 1) + share_spec(samples, 2) + share_spec(
            samples,
            3,
        ) == samples,
        forall|worker: nat| worker >= WORKERS ==> share_spec(samples, worker) == 0,
{
}

/// The lower end of the query range is the binary64 value nearest to
/// `1 / 1000`.
pub proof fn lemma_t_min()
    ensures
        (Scalar { bits: T_MIN_BITS }).approximates(1, 1000),
{
    let c = Scalar { bits: T_MIN_BITS };
    assert(c.exponent_field() == 1013 && c.fraction_field() == 0x624D_D2F1_A9FC);
    vstd::arithmetic::power2::lemma2_to64_rest();
    crate::scalar::lemma_approximates(c, 1, 1000, 62);
}

} // verus!
