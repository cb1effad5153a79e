//! Sphere geometry with its closed-form quadratic ray intersection.

use crate::fx::{fx_add, fx_div, fx_mul, fx_sqrt, fx_sub, iabs, lemma_tdiv_monotone, sqrt_floor,
    tdiv, Fx, LIM, SCALE};
use crate::hittable::{spec_hit_record, HitRecord};
use crate::material::Material;
use crate::p3::Point3;
use crate::ray::{spec_at, Ray};
use crate::v3::{lemma_div_near_length, norm_sq, t_dot, t_neg, t_norm_sq, t_size, t_sub, tv, v3_of,
    Vec3};
use std::sync::Arc;
use vstd::prelude::*;

verus! {

#[derive(Clone, Copy, Debug)]
pub struct Sphere {
    pub center: Point3,
    pub radius: Fx,
    pub material: Material,
}

/// The nearest intersection of `ray` with the sphere at a parametric
/// distance within `[t_min, t_max]`, from the quadratic
/// `|O + tD - C|^2 = r^2`: no real root, a degenerate direction, or both
/// roots outside the interval mean no hit.
pub open spec fn spec_sphere_hit(s: Sphere, ray: Ray, t_min: int, t_max: int) -> Option<
    HitRecord,
> {
    let oc = t_sub(tv(ray.orig.0), tv(s.center.0));
    let a = t_dot(tv(ray.dir), tv(ray.dir));
    let half_b = t_dot(oc, tv(ray.dir));
    let c = fx_sub(t_dot(oc, oc), fx_mul(s.radius@, s.radius@));
    let disc = fx_sub(fx_mul(half_b, half_b), fx_mul(a, c));
    if disc < 0 || a == 0 {
        None
    } else {
        let sd = fx_sqrt(disc);
        let near = fx_div(fx_sub(-half_b, sd), a);
        let root = if t_min <= near && near <= t_max {
            near
        } else {
            fx_div(fx_add(-half_b, sd), a)
        };
        if t_min <= root && root <= t_max {
            let p = spec_at(ray, root);
            let d = t_sub(p, tv(s.center.0));
            let outward = (fx_div(d.0, s.radius@), fx_div(d.1, s.radius@), fx_div(d.2, s.radius@));
            Some(spec_hit_record(ray, v3_of(outward), s.material, Fx { raw: root as i64 }))
        } else {
            None
        }
    }
}

/// A miss over an interval stays a miss over any narrower interval with
/// the same lower end: the roots of the quadratic do not depend on the
/// interval.
pub proof fn lemma_sphere_hit_none_narrow(s: Sphere, ray: Ray, t_min: int, b_big: int, b_small: int)
    requires
        spec_sphere_hit(s, ray, t_min, b_big) is None,
        b_small <= b_big,
    ensures
        spec_sphere_hit(s, ray, t_min, b_small) is None,
{
}

/// The hit an interval query reports is the closest intersection the
/// sphere has: any query that stops strictly before it misses.
pub proof fn lemma_sphere_hit_no_closer(s: Sphere, ray: Ray, t_min: int, t_max: int)
    ensures
        match spec_sphere_hit(s, ray, t_min, t_max) {
            Some(rec) => {
                &&& t_min <= rec.scale@ <= t_max
                &&& spec_sphere_hit(s, ray, t_min, rec.scale@ - 1) is None
            },
            None => true,
        },
{
    match spec_sphere_hit(s, ray, t_min, t_max) {
        Some(rec) => {
            let oc = t_sub(tv(ray.orig.0), tv(s.center.0));
            let a = t_dot(tv(ray.dir), tv(ray.dir));
            let half_b = t_dot(oc, tv(ray.dir));
            let c = fx_sub(t_dot(oc, oc), fx_mul(s.radius@, s.radius@));
            let disc = fx_sub(fx_mul(half_b, half_b), fx_mul(a, c));
            let sd = fx_sqrt(disc);
            let near = fx_div(fx_sub(-half_b, sd), a);
            let far = fx_div(fx_add(-half_b, sd), a);
            let d1 = tv(ray.dir).0;
            let d2 = tv(ray.dir).1;
            let d3 = tv(ray.dir).2;
            assert(d1 * d1 + d2 * d2 + d3 * d3 >= 0) by (nonlinear_arith);
            assert(disc >= 0 && a > 0);
            crate::fx::lemma_sqrt_floor(disc * (SCALE as int));
            assert(sd >= 0);
            assert(fx_sub(-half_b, sd) <= fx_add(-half_b, sd));
            lemma_tdiv_monotone(
                fx_sub(-half_b, sd) * (SCALE as int),
                fx_add(-half_b, sd) * (SCALE as int),
                a,
            );
            assert(near <= far);
            let root = if t_min <= near && near <= t_max {
                near
            } else {
                far
            };
            assert(-(LIM as int) <= root <= LIM as int);
            assert(rec.scale@ == root);
            assert(spec_sphere_hit(s, ray, t_min, rec.scale@ - 1) is None);
        },
        None => {},
    }
}

/// The stored oriented normal is near unit length: where the radius is at
/// least one half and the hit point lies on the sphere's surface to
/// within `e` raw units, the normal `(p - c) / radius` (possibly flipped)
/// has length 1 within `2 e + 6` units of the last place.  The surface
/// hypothesis cannot be discharged unconditionally: the root of the
/// truncated quadratic can stray from the exact surface, most of all for
/// small radii and grazing rays.
pub proof fn lemma_sphere_normal_near_unit(s: Sphere, ray: Ray, t_min: int, t_max: int, e: int)
    requires
        s.radius@ >= 2147483648,
        s.radius@ <= LIM as int,
        0 <= e <= 134217728,
        match spec_sphere_hit(s, ray, t_min, t_max) {
            Some(rec) => {
                let dd = t_sub(spec_at(ray, rec.scale@), tv(s.center.0));
                &&& iabs(sqrt_floor(t_norm_sq(dd)) - s.radius@) <= e
                &&& t_norm_sq(dd) <= (LIM as int) * (LIM as int)
            },
            None => true,
        },
    ensures
        match spec_sphere_hit(s, ray, t_min, t_max) {
            Some(rec) => (SCALE as int) - (2 * e + 6) <= t_size(tv(rec.normal)) <= (SCALE as int)
                + (2 * e + 6),
            None => true,
        },
{
    match spec_sphere_hit(s, ray, t_min, t_max) {
        Some(rec) => {
            let dd = t_sub(spec_at(ray, rec.scale@), tv(s.center.0));
            let dv = v3_of(dd);
            assert(dv.wf() && tv(dv) == dd);
            assert(norm_sq(dv) == t_norm_sq(dd));
            lemma_div_near_length(dv, s.radius@, e);
            let outward = (
                fx_div(dd.0, s.radius@),
                fx_div(dd.1, s.radius@),
                fx_div(dd.2, s.radius@),
            );
            assert(tv(v3_of(outward)) == outward);
            if rec.normal == v3_of(outward) {
            } else {
                assert(tv(rec.normal) == t_neg(outward));
                assert(t_norm_sq(t_neg(outward)) == t_norm_sq(outward)) by (nonlinear_arith);
            }
        },
        None => {},
    }
}

impl Sphere {
    pub open spec fn wf(self) -> bool {
        &&& self.center.wf()
        &&& self.radius.wf()
        &&& self.radius@ != 0
        &&& self.material.wf()
    }

    pub fn new(center: Point3, radius: Fx, material: Material) -> (r: Sphere)
        ensures
            r == (Sphere { center, radius, material }),
    {
        Sphere { center, radius, material }
    }

    pub fn new_arc(center: Point3, radius: Fx, material: Material) -> (r: Arc<Sphere>)
        ensures
            r == (Sphere { center, radius, material }),
    {
        Arc::new(Sphere { center, radius, material })
    }

    /// Runtime check of `wf`, for callers outside the proof.
    pub fn is_wf(&self) -> (r: bool)
        ensures
            r == self.wf(),
    {
        let c = self.center.0;
        -LIM <= c.e1.raw && c.e1.raw <= LIM && -LIM <= c.e2.raw && c.e2.raw <= LIM && -LIM
            <= c.e3.raw && c.e3.raw <= LIM && -LIM <= self.radius.raw && self.radius.raw <= LIM
            && self.radius.raw != 0 && self.material.is_wf()
    }

    /// Reports the nearest intersection strictly within the interval, or
    /// nothing; `lemma_sphere_normal_near_unit` bounds the stored normal's
    /// length.
    pub fn hit(&self, ray: &Ray, t_min: Fx, t_max: Fx) -> (r: Option<HitRecord>)
        requires
            self.wf(),
            ray.wf(),
            t_min.wf(),
            t_max.wf(),
        ensures
            r == spec_sphere_hit(*self, *ray, t_min@, t_max@),
            match r {
                Some(rec) => {
                    &&& rec.wf()
                    &&& rec.material == self.material
                    &&& t_min@ <= rec.scale@ <= t_max@
                    &&& norm_sq(ray.dir) > 0
                },
                None => true,
            },
    {
        let oc = ray.origin().sub(self.center);
        let a = Vec3::dot(ray.dir(), ray.dir());
        let half_b = Vec3::dot(oc, ray.dir());
        let c = Vec3::dot(oc, oc).sub(self.radius.mul(self.radius));
        let disc = half_b.mul(half_b).sub(a.mul(c));
        if disc.raw < 0 || a.raw == 0 {
            return None;
        }
        proof {
            assert(norm_sq(ray.dir) >= 0) by (nonlinear_arith)
                requires
                    norm_sq(ray.dir) == ray.dir.e1@ * ray.dir.e1@ + ray.dir.e2@ * ray.dir.e2@
                        + ray.dir.e3@ * ray.dir.e3@,
            ;
            assert(a@ > 0);
            assert(norm_sq(ray.dir) > 0) by {
                if norm_sq(ray.dir) == 0 {
                    assert(tdiv(0, SCALE as int) == 0);
                }
            }
        }
        let sqrt_d = disc.sqrt();
        let neg_hb = half_b.neg();
        let mut root = neg_hb.sub(sqrt_d).div(a);
        if root.raw < t_min.raw || root.raw > t_max.raw {
            root = neg_hb.add(sqrt_d).div(a);
        }
        if root.raw < t_min.raw || root.raw > t_max.raw {
            return None;
        }
        let diff = ray.at(root).sub(self.center);
        let outward = Vec3 {
            e1: diff.e1.div(self.radius),
            e2: diff.e2.div(self.radius),
            e3: diff.e3.div(self.radius),
        };
        Some(HitRecord::new(ray, outward, self.material, root))
    }
}

} // verus!
