//! The scene aggregate: an insertion-ordered list of spheres scanned
//! linearly, narrowing the search interval to the closest hit found so
//! far.

use crate::fx::Fx;
use crate::hittable::HitRecord;
use crate::ray::Ray;
use crate::sphere::{lemma_sphere_hit_no_closer, lemma_sphere_hit_none_narrow, spec_sphere_hit, Sphere};
use crate::v3::norm_sq;
use vstd::prelude::*;

verus! {

/// The scan from member `i` onward, with `closest` the current upper bound
/// on the parametric distance and `best` the best hit so far.
pub open spec fn spec_list_hit_from(
    objs: Seq<Sphere>,
    i: int,
    ray: Ray,
    t_min: int,
    closest: int,
    best: Option<HitRecord>,
) -> Option<HitRecord>
    decreases objs.len() - i,
{
    if i < 0 || i >= objs.len() {
        best
    } else {
        match spec_sphere_hit(objs[i], ray, t_min, closest) {
            Some(rec) => spec_list_hit_from(objs, i + 1, ray, t_min, rec.scale@, Some(rec)),
            None => spec_list_hit_from(objs, i + 1, ray, t_min, closest, best),
        }
    }
}

/// The closest hit among all members within `[t_min, t_max]`, ties broken
/// by scan order.
pub open spec fn spec_list_hit(objs: Seq<Sphere>, ray: Ray, t_min: int, t_max: int) -> Option<
    HitRecord,
> {
    spec_list_hit_from(objs, 0, ray, t_min, t_max, None)
}

/// A ray that misses every member at the full interval is missed by the
/// whole list.
pub proof fn lemma_list_all_miss(objs: Seq<Sphere>, ray: Ray, t_min: int, t_max: int)
    requires
        forall|k: int| 0 <= k < objs.len() ==> spec_sphere_hit(objs[k], ray, t_min, t_max) is None,
    ensures
        spec_list_hit(objs, ray, t_min, t_max) is None,
{
    lemma_list_miss_from(objs, 0, ray, t_min, t_max);
}

proof fn lemma_list_miss_from(objs: Seq<Sphere>, i: int, ray: Ray, t_min: int, t_max: int)
    requires
        forall|k: int| 0 <= k < objs.len() ==> spec_sphere_hit(objs[k], ray, t_min, t_max) is None,
        0 <= i,
    ensures
        spec_list_hit_from(objs, i, ray, t_min, t_max, None) is None,
    decreases objs.len() - i,
{
    if i < objs.len() {
        lemma_list_miss_from(objs, i + 1, ray, t_min, t_max);
    }
}

/// The scan's result is globally closest: no member of the list intersects
/// the ray strictly closer than the returned hit.
pub proof fn lemma_list_hit_closest(objs: Seq<Sphere>, ray: Ray, t_min: int, t_max: int)
    ensures
        match spec_list_hit(objs, ray, t_min, t_max) {
            Some(rec) => forall|k: int|
                0 <= k < objs.len() ==> spec_sphere_hit(objs[k], ray, t_min, rec.scale@ - 1)
                    is None,
            None => true,
        },
{
    lemma_fold_no_closer(objs, 0, ray, t_min, t_max, None);
}

proof fn lemma_fold_no_closer(
    objs: Seq<Sphere>,
    i: int,
    ray: Ray,
    t_min: int,
    closest: int,
    best: Option<HitRecord>,
)
    requires
        0 <= i <= objs.len(),
        match best {
            Some(rec) => rec.scale@ == closest,
            None => true,
        },
        forall|k: int| 0 <= k < i ==> spec_sphere_hit(objs[k], ray, t_min, closest - 1) is None,
    ensures
        match spec_list_hit_from(objs, i, ray, t_min, closest, best) {
            Some(rec) => forall|k: int|
                0 <= k < objs.len() ==> spec_sphere_hit(objs[k], ray, t_min, rec.scale@ - 1)
                    is None,
            None => true,
        },
    decreases objs.len() - i,
{
    if i < objs.len() {
        match spec_sphere_hit(objs[i], ray, t_min, closest) {
            Some(rec_i) => {
                lemma_sphere_hit_no_closer(objs[i], ray, t_min, closest);
                assert forall|k: int|
                    0 <= k < i + 1 implies spec_sphere_hit(
                    objs[k],
                    ray,
                    t_min,
                    rec_i.scale@ - 1,
                ) is None by {
                    if k < i {
                        lemma_sphere_hit_none_narrow(
                            objs[k],
                            ray,
                            t_min,
                            closest - 1,
                            rec_i.scale@ - 1,
                        );
                    }
                }
                lemma_fold_no_closer(objs, i + 1, ray, t_min, rec_i.scale@, Some(rec_i));
            },
            None => {
                lemma_sphere_hit_none_narrow(objs[i], ray, t_min, closest, closest - 1);
                lemma_fold_no_closer(objs, i + 1, ray, t_min, closest, best);
            },
        }
    }
}

pub struct HittableList {
    pub hittables: Vec<Sphere>,
}

impl HittableList {
    /// Every member is a well-formed sphere.
    pub open spec fn wf(self) -> bool {
        forall|k: int| 0 <= k < self.hittables@.len() ==> self.hittables@[k].wf()
    }

    pub fn new() -> (r: HittableList)
        ensures
            r.hittables@.len() == 0,
            r.wf(),
    {
        HittableList { hittables: Vec::new() }
    }

    pub fn clear(&mut self)
        ensures
            final (self).hittables@.len() == 0,
    {
        self.hittables.clear()
    }

    pub fn add(&mut self, object: Sphere)
        ensures
            final (self).hittables@ == old(self).hittables@.push(object),
    {
        self.hittables.push(object)
    }

    /// Runtime check of `wf`, for callers outside the proof.
    pub fn is_wf(&self) -> (r: bool)
        ensures
            r == self.wf(),
    {
        let mut i: usize = 0;
        let n = self.hittables.len();
        while i < n
            invariant
                i <= n,
                n == self.hittables@.len(),
                forall|k: int| 0 <= k < i ==> self.hittables@[k].wf(),
            decreases n - i,
        {
            if !self.hittables[i].is_wf() {
                return false;
            }
            i = i + 1;
        }
        true
    }

    /// Linear scan for the closest hit: the interval's upper bound shrinks
    /// to each accepted hit's distance, so the result is the globally
    /// closest member hit (`lemma_list_hit_closest`).
    pub fn hit(&self, ray: &Ray, t_min: Fx, t_max: Fx) -> (r: Option<HitRecord>)
        requires
            self.wf(),
            ray.wf(),
            t_min.wf(),
            t_max.wf(),
        ensures
            r == spec_list_hit(self.hittables@, *ray, t_min@, t_max@),
            match r {
                Some(rec) => {
                    &&& rec.wf()
                    &&& rec.material.wf()
                    &&& t_min@ <= rec.scale@ <= t_max@
                    &&& norm_sq(ray.dir) > 0
                },
                None => true,
            },
    {
        let mut closest = t_max;
        let mut best: Option<HitRecord> = None;
        let mut i: usize = 0;
        let n = self.hittables.len();
        while i < n
            invariant
                i <= n,
                n == self.hittables@.len(),
                self.wf(),
                ray.wf(),
                t_min.wf(),
                t_max.wf(),
                closest.wf(),
                spec_list_hit_from(self.hittables@, i as int, *ray, t_min@, closest@, best)
                    == spec_list_hit(self.hittables@, *ray, t_min@, t_max@),
                match best {
                    Some(rec) => {
                        &&& rec.wf()
                        &&& rec.material.wf()
                        &&& t_min@ <= rec.scale@ <= t_max@
                        &&& closest@ == rec.scale@
                        &&& norm_sq(ray.dir) > 0
                    },
                    None => closest == t_max,
                },
            decreases n - i,
        {
            let member = self.hittables[i];
            match member.hit(ray, t_min, closest) {
                Some(rec) => {
                    closest = rec.scale;
                    best = Some(rec);
                },
                None => {},
            }
            i = i + 1;
        }
        best
    }
}

} // verus!
