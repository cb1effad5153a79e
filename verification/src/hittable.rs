//! The result of a successful ray/geometry intersection.

use crate::fx::Fx;
use crate::material::Material;
use crate::p3::Point3;
use crate::ray::{spec_at, Ray};
use crate::v3::{lemma_t_dot_neg, t_dot, t_neg, tv, v3_of, Vec3};
use vstd::prelude::*;

verus! {

/// The record produced when a ray meets a surface: hit point, oriented
/// normal, the surface's material, the parametric distance (`scale`), and
/// whether the outside of the surface was hit.
#[derive(Clone, Copy, Debug)]
pub struct HitRecord {
    pub point: Point3,
    pub normal: Vec3,
    pub material: Material,
    pub scale: Fx,
    pub front_face: bool,
}

/// The record built from a ray, the raw geometric normal, and the
/// parametric distance: the stored normal is flipped where needed so that
/// it always points against the incoming ray, and `front_face` is true
/// exactly when the ray arrives from the side the geometric normal points
/// toward.
pub open spec fn spec_hit_record(ray: Ray, normal: Vec3, material: Material, scale: Fx) -> HitRecord {
    let ff = t_dot(tv(ray.dir), tv(normal)) < 0;
    HitRecord {
        point: Point3(v3_of(spec_at(ray, scale@))),
        normal: if ff {
            normal
        } else {
            v3_of(t_neg(tv(normal)))
        },
        material,
        scale,
        front_face: ff,
    }
}

impl HitRecord {
    pub open spec fn wf(self) -> bool {
        &&& self.point.wf()
        &&& self.normal.wf()
        &&& self.scale.wf()
    }

    pub fn new(ray: &Ray, normal: Vec3, material: Material, scale: Fx) -> (r: HitRecord)
        requires
            ray.wf(),
            normal.wf(),
            scale.wf(),
        ensures
            r == spec_hit_record(*ray, normal, material, scale),
            r.wf(),
            t_dot(tv(ray.dir), tv(r.normal)) <= 0,
    {
        let point = ray.at(scale);
        let d = Vec3::dot(ray.dir(), normal);
        let front_face = d.raw < 0;
        let oriented = if front_face {
            normal
        } else {
            normal.neg()
        };
        proof {
            if !front_face {
                lemma_t_dot_neg(tv(ray.dir), tv(normal));
            }
        }
        HitRecord { point, normal: oriented, material, scale, front_face }
    }

    pub fn normal(&self) -> (r: Vec3)
        ensures
            r == self.normal,
    {
        self.normal
    }

    pub fn point(&self) -> (r: Point3)
        ensures
            r == self.point,
    {
        self.point
    }

    pub fn material(&self) -> (r: Material)
        ensures
            r == self.material,
    {
        self.material
    }

    pub fn front_face(&self) -> (r: bool)
        ensures
            r == self.front_face,
    {
        self.front_face
    }
}

} // verus!
