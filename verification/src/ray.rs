//! A ray: origin point plus direction vector.

use crate::fx::{fx_add, fx_mul, Fx};
use crate::p3::Point3;
use crate::v3::Vec3;
use vstd::prelude::*;

verus! {

#[derive(Clone, Copy, Debug, PartialEq, Eq, Structural)]
pub struct Ray {
    pub orig: Point3,
    pub dir: Vec3,
}

/// Raw coordinates of the point at parametric distance `t` along the ray.
pub open spec fn spec_at(ray: Ray, t: int) -> (int, int, int) {
    (
        fx_add(ray.orig.0.e1@, fx_mul(ray.dir.e1@, t)),
        fx_add(ray.orig.0.e2@, fx_mul(ray.dir.e2@, t)),
        fx_add(ray.orig.0.e3@, fx_mul(ray.dir.e3@, t)),
    )
}

impl Ray {
    pub open spec fn wf(self) -> bool {
        &&& self.orig.wf()
        &&& self.dir.wf()
    }

    pub fn new(orig: Point3, dir: Vec3) -> (r: Ray)
        ensures
            r == (Ray { orig, dir }),
    {
        Ray { orig, dir }
    }

    pub fn dir(&self) -> (r: Vec3)
        ensures
            r == self.dir,
    {
        self.dir
    }

    pub fn origin(&self) -> (r: Point3)
        ensures
            r == self.orig,
    {
        self.orig
    }

    /// The point at parametric distance `t`.
    pub fn at(&self, t: Fx) -> (r: Point3)
        requires
            self.wf(),
            t.wf(),
        ensures
            r.wf(),
            (r.0.e1@, r.0.e2@, r.0.e3@) == spec_at(*self, t@),
    {
        self.orig.add(self.dir.scale(t))
    }
}

} // verus!
