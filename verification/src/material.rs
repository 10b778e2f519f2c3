//! Surfaces: what becomes of a ray that arrives at one.
//!
//! The three materials are held as data. Where a scattered ray points is
//! arithmetic on chance and is left to the implementor of [`Material`];
//! the choices that the materials make between directions are here.
use crate::color::Color;
use crate::geometry::hittable::HitRecord;
use crate::ray::Ray;
use crate::scalar::{Scalar, ONE_BITS};
use crate::vec3::Vector3;
use vstd::prelude::*;

verus! {

/// What a surface sends on: the ray that leaves it, and the factor by which
/// each colour channel of the light along that ray is multiplied.
#[derive(Clone, Copy, Debug)]
pub struct Scatter {
    pub attenuation: Color,
    pub scattered: Ray,
}

/// A surface. `scatter` answers for one arriving ray; `None` says that the
/// surface absorbed it. The answer may depend on chance.
pub trait Material: Sync + Send + Sized {
    /// Whether the surface may give the answer `r` for the ray `r_in` that
    /// arrived as `rec` tells. As it stands it allows every answer; a
    /// material that knows more says so.
    open spec fn sends(&self, r_in: Ray, rec: HitRecord<Self>, r: Option<Scatter>) -> bool {
        true
    }

    fn scatter(&self, r_in: &Ray, rec: &HitRecord<Self>) -> (r: Option<Scatter>)
        ensures
            self.sends(*r_in, *rec, r),
    ;
}

/// A matte surface: scatters every ray, about the normal.
#[derive(Clone, Copy, Debug)]
pub struct Lambertian {
    pub albedo: Color,
}

/// A mirror, blurred by `fuzz`.
#[derive(Clone, Copy, Debug)]
pub struct Metal {
    pub albedo: Color,
    pub fuzz: Scalar,
}

/// A clear surface that bends or mirrors each ray.
#[derive(Clone, Copy, Debug)]
pub struct Dielectric {
    pub refraction_index: Scalar,
}

impl Lambertian {
    /// The direction a ray leaves in: `candidate`, the normal plus a random
    /// unit vector, unless the two nearly cancelled; then the normal.
    pub open spec fn direction_spec(normal: Vector3, candidate: Vector3) -> Vector3 {
        if candidate.near_zero_spec() {
            normal
        } else {
            candidate
        }
    }

    /// The matte surface of the given colour.
    pub fn new(albedo: &Color) -> (r: Lambertian)
        ensures
            r.albedo == *albedo,
    {
        Lambertian { albedo: *albedo }
    }

    /// The direction of the scattered ray.
    pub fn direction(normal: &Vector3, candidate: &Vector3) -> (r: Vector3)
        ensures
            r == Lambertian::direction_spec(*normal, *candidate),
    {
        if candidate.near_zero() {
            *normal
        } else {
            *candidate
        }
    }
}

impl Metal {
    /// The fuzz is a number and at most one.
    pub open spec fn wf(&self) -> bool {
        self.fuzz.le_spec(Scalar { bits: ONE_BITS })
    }

    /// Whether a reflected ray whose direction has the dot product `facing`
    /// with the normal leaves the surface: the product is positive. A ray
    /// that points into the surface is absorbed.
    pub open spec fn leaves_spec(facing: Scalar) -> bool {
        facing.gt_spec(Scalar { bits: 0 })
    }

    /// The mirror of the given colour. A fuzz above one, or one that is no
    /// number, is replaced by one.
    pub fn new(albedo: &Color, fuzz: Scalar) -> (r: Metal)
        ensures
            r.albedo == *albedo,
            r.fuzz == fuzz.min_spec(Scalar { bits: ONE_BITS }),
            r.wf(),
    {
        let one = Scalar::one();
        Metal { albedo: *albedo, fuzz: fuzz.min(one) }
    }

    /// Whether the reflected ray leaves the surface.
    pub fn leaves(facing: Scalar) -> (r: bool)
        ensures
            r == Metal::leaves_spec(facing),
    {
        facing.gt(Scalar::zero())
    }
}

impl Dielectric {
    /// Whether the ray is mirrored: bending is impossible, because the
    /// index ratio times the sine of the arriving angle exceeds one, or
    /// the reflectance exceeds the draw.
    pub open spec fn reflects_spec(ratio_sine: Scalar, reflectance: Scalar, draw: Scalar) -> bool {
        ratio_sine.gt_spec(Scalar { bits: ONE_BITS }) || reflectance.gt_spec(draw)
    }

    /// The clear surface of the given refraction index.
    pub fn new(refraction_index: Scalar) -> (r: Dielectric)
        ensures
            r.refraction_index == refraction_index,
    {
        Dielectric { refraction_index }
    }

    /// The index ratio across the surface: `inverse`, the reciprocal of the
    /// index, for a ray that arrives from outside; the index itself for one
    /// that leaves.
    pub fn ratio(&self, front_face: bool, inverse: Scalar) -> (r: Scalar)
        ensures
            r == (if front_face { inverse } else { self.refraction_index }),
    {
        if front_face {
            inverse
        } else {
            self.refraction_index
        }
    }

    /// Whether the ray is mirrored rather than bent. `ratio_sine` is the
    /// index ratio times the sine of the arriving angle, `reflectance` the
    /// Schlick value for that angle, `draw` a uniform draw from `[0, 1)`.
    pub fn reflects(ratio_sine: Scalar, reflectance: Scalar, draw: Scalar) -> (r: bool)
        ensures
            r == Dielectric::reflects_spec(ratio_sine, reflectance, draw),
    {
        ratio_sine.gt(Scalar::one()) || reflectance.gt(draw)
    }

    /// The attenuation of every ray: white, since nothing is absorbed.
    pub fn attenuation() -> (r: Color)
        ensures
            r.x.bits == ONE_BITS,
            r.y.bits == ONE_BITS,
            r.z.bits == ONE_BITS,
    {
        Color::new(Scalar::one(), Scalar::one(), Scalar::one())
    }
}

} // verus!
