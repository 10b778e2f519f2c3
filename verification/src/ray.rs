//! Rays: a point of departure and a direction.
use crate::vec3::{Point3, Vector3};
use vstd::prelude::*;

verus! {

/// A half-line from `orig` along `dir`.
#[derive(Clone, Copy, Debug)]
pub struct Ray {
    pub orig: Point3,
    pub dir: Vector3,
}

impl Ray {
    /// The ray from `origin` along `direction`.
    pub fn new(origin: &Point3, direction: &Vector3) -> (r: Ray)
        ensures
            r.orig == *origin,
            r.dir == *direction,
    {
        Ray { orig: *origin, dir: *direction }
    }

    /// The ray from the zero point along the zero vector.
    pub fn new_default() -> (r: Ray)
        ensures
            r.orig.x.bits == 0 && r.orig.y.bits == 0 && r.orig.z.bits == 0,
            r.dir.x.bits == 0 && r.dir.y.bits == 0 && r.dir.z.bits == 0,
    {
        Ray { orig: Point3::new_default(), dir: Vector3::new_default() }
    }

    /// Where the ray starts.
    pub fn origin(&self) -> (r: &Point3)
        ensures
            *r == self.orig,
    {
        &self.orig
    }

    /// Where the ray points.
    pub fn direction(&self) -> (r: &Vector3)
        ensures
            *r == self.dir,
    {
        &self.dir
    }
}

} // verus!
