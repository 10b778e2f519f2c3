//! The sphere, and which of its two meetings with a ray counts.
use crate::interval::Interval;
use crate::scalar::Scalar;
use crate::vec3::Point3;
use std::sync::Arc;
use vstd::prelude::*;

verus! {

/// A sphere of material `M`.
pub struct Sphere<M> {
    pub center: Point3,
    pub radius: Scalar,
    pub mat: Arc<M>,
}

/// The quadratic that a ray and a sphere give: its discriminant, and the
/// ray parameters of the nearer and of the farther meeting point. The two
/// parameters mean nothing under a negative discriminant.
#[derive(Clone, Copy, Debug)]
pub struct Roots {
    pub discriminant: Scalar,
    pub near: Scalar,
    pub far: Scalar,
}

impl<M> Sphere<M> {
    /// The radius is a number and not negative.
    pub open spec fn wf(&self) -> bool {
        !self.radius.is_nan_spec() && self.radius.scaled() >= 0
    }

    /// The sphere round `center`. A negative radius, or one that is no
    /// number, is replaced by zero.
    pub fn new(center: &Point3, radius: Scalar, mat: Arc<M>) -> (r: Sphere<M>)
        ensures
            r.center == *center,
            r.radius == radius.max_spec(Scalar { bits: 0 }),
            r.mat == mat,
            r.wf(),
    {
        let zero = Scalar::zero();
        Sphere { center: *center, radius: radius.max(zero), mat }
    }
}

impl Roots {
    /// The parameter at which the ray counts as meeting the sphere within
    /// `ray_t`: none under a negative discriminant; else the nearer root if
    /// it lies strictly inside the range; else the farther one if that
    /// does; else none.
    pub open spec fn select_spec(self, ray_t: Interval) -> Option<Scalar> {
        if self.discriminant.lt_spec(Scalar { bits: 0 }) {
            None
        } else if ray_t.surrounds_spec(self.near) {
            Some(self.near)
        } else if ray_t.surrounds_spec(self.far) {
            Some(self.far)
        } else {
            None
        }
    }

    /// The roots of one quadratic.
    pub fn new(discriminant: Scalar, near: Scalar, far: Scalar) -> (r: Roots)
        ensures
            r.discriminant == discriminant,
            r.near == near,
            r.far == far,
    {
        Roots { discriminant, near, far }
    }

    /// The parameter of the hit within `ray_t`, if there is one.
    pub fn select(&self, ray_t: Interval) -> (r: Option<Scalar>)
        ensures
            r == self.select_spec(ray_t),
    {
        if self.discriminant.lt(Scalar::zero()) {
            None
        } else if ray_t.surrounds(self.near) {
            Some(self.near)
        } else if ray_t.surrounds(self.far) {
            Some(self.far)
        } else {
            None
        }
    }
}

/// The root that is selected is the first meeting inside the range: it lies
/// strictly inside, and where the roots are in order no root inside the
/// range lies before it.
pub proof fn lemma_select_is_first(roots: Roots, ray_t: Interval)
    requires
        roots.near.le_spec(roots.far),
    ensures
        (roots.select_spec(ray_t) matches Some(t) ==> ray_t.surrounds_spec(t) && (
        ray_t.surrounds_spec(roots.near) ==> t.le_spec(roots.near)) && (ray_t.surrounds_spec(
            roots.far,
        ) ==> t.le_spec(roots.far))),
        roots.select_spec(ray_t) is None ==> roots.discriminant.lt_spec(Scalar { bits: 0 }) || (
        !ray_t.surrounds_spec(roots.near) && !ray_t.surrounds_spec(roots.far)),
{
}

} // verus!
