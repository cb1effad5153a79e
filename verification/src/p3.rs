//! Affine positions, kept apart from displacement vectors at the type
//! level: point minus point is a vector, point plus or minus vector is a
//! point.

use crate::fx::{fx_add, fx_sub, Fx};
use crate::v3::Vec3;
use vstd::prelude::*;

verus! {

#[derive(Clone, Copy, Debug, PartialEq, Eq, Structural)]
pub struct Point3(pub Vec3);

impl Point3 {
    pub open spec fn wf(self) -> bool {
        self.0.wf()
    }

    pub fn new(x: Fx, y: Fx, z: Fx) -> (r: Point3)
        ensures
            r == (Point3(Vec3 { e1: x, e2: y, e3: z })),
    {
        Point3(Vec3 { e1: x, e2: y, e3: z })
    }

    pub fn zero() -> (r: Point3)
        ensures
            r.wf(),
            r.0.e1@ == 0 && r.0.e2@ == 0 && r.0.e3@ == 0,
    {
        Point3(Vec3::zero())
    }

    pub fn xyz(&self) -> (r: (Fx, Fx, Fx))
        ensures
            r == (self.0.e1, self.0.e2, self.0.e3),
    {
        self.0.xyz()
    }

    /// The displacement from `rhs` to `self`.
    pub fn sub(self, rhs: Point3) -> (r: Vec3)
        requires
            self.wf(),
            rhs.wf(),
        ensures
            r.wf(),
            r.e1@ == fx_sub(self.0.e1@, rhs.0.e1@),
            r.e2@ == fx_sub(self.0.e2@, rhs.0.e2@),
            r.e3@ == fx_sub(self.0.e3@, rhs.0.e3@),
    {
        self.0.sub(rhs.0)
    }

    /// The point displaced by `rhs`.
    pub fn add(self, rhs: Vec3) -> (r: Point3)
        requires
            self.wf(),
            rhs.wf(),
        ensures
            r.wf(),
            r.0.e1@ == fx_add(self.0.e1@, rhs.e1@),
            r.0.e2@ == fx_add(self.0.e2@, rhs.e2@),
            r.0.e3@ == fx_add(self.0.e3@, rhs.e3@),
    {
        Point3(self.0.add(rhs))
    }

    /// The point displaced against `rhs`.
    pub fn sub_vec(self, rhs: Vec3) -> (r: Point3)
        requires
            self.wf(),
            rhs.wf(),
        ensures
            r.wf(),
            r.0.e1@ == fx_sub(self.0.e1@, rhs.e1@),
            r.0.e2@ == fx_sub(self.0.e2@, rhs.e2@),
            r.0.e3@ == fx_sub(self.0.e3@, rhs.e3@),
    {
        Point3(self.0.sub(rhs))
    }

    /// The position as a displacement from the origin.
    pub fn to_vec(self) -> (r: Vec3)
        ensures
            r == self.0,
    {
        self.0
    }
}

} // verus!
