//! Material scattering: diffuse (Lambertian), specular with fuzz (Metal)
//! and refractive (Dielectric) responses to a hit.
//!
//! Each material has a deterministic core, `scatter_with`, that takes the
//! random draws it consumes as explicit arguments and carries an exact
//! contract; `Material::scatter` feeds it from the sampling stream.

use crate::color::Color;
use crate::fx::{fx_add, fx_div, fx_mul, fx_sub, fx_sqrt, tdiv, Fx, LIM, SCALE};
use crate::hittable::HitRecord;
use crate::ray::Ray;
use crate::rng::RngState;
use crate::sampling::{random_in_unit_sphere, random_unit_vector};
use crate::v3::{near_zero3, norm_sq, t_add, t_dot, t_neg, t_normalized, t_scale, t_size, t_sub, tv,
    Vec3};
use std::rc::Rc;
use std::sync::Arc;
use vstd::prelude::*;

verus! {

/// A scattered ray together with the color attenuation it carries.
#[derive(Clone, Copy, Debug)]
pub struct Scatter {
    pub scattered_ray: Ray,
    pub attenuation: Color,
}

impl Scatter {
    pub fn attenuation(&self) -> (r: Color)
        ensures
            r == self.attenuation,
    {
        self.attenuation
    }

    pub fn ray(&self) -> (r: &Ray)
        ensures
            r == &self.scattered_ray,
    {
        &self.scattered_ray
    }
}

/// Diffuse surface: scatters toward the normal perturbed by a random unit
/// vector, attenuated by its albedo; never absorbs.
#[derive(Clone, Copy, Debug)]
pub struct Lambertian {
    pub albedo: Color,
}

/// Specular surface: reflects the incoming direction, perturbed by `fuzz`
/// times a random in-ball vector; absorbs rays that the perturbation
/// pushes under the surface.
#[derive(Clone, Copy, Debug)]
pub struct Metal {
    pub albedo: Color,
    pub fuzz: Fx,
}

/// Refractive surface: refracts where Snell's law allows it and a Fresnel
/// (Schlick) draw does not choose reflection; never absorbs.
#[derive(Clone, Copy, Debug)]
pub struct Dielectric {
    pub refraction_index: Fx,
}

/// The closed set of materials a surface can carry.
#[derive(Clone, Copy, Debug)]
pub enum Material {
    Lambertian(Lambertian),
    Metal(Metal),
    Dielectric(Dielectric),
}

/// The direction of an ideal mirror reflection: `v - 2 (v . n) n`.
pub open spec fn t_reflect(v: (int, int, int), n: (int, int, int)) -> (int, int, int) {
    let d = t_dot(v, n);
    t_sub(v, t_scale(n, fx_add(d, d)))
}

/// Reflects a direction about a surface normal.
pub fn reflect(incoming: Vec3, normal: Vec3) -> (r: Vec3)
    requires
        incoming.wf(),
        normal.wf(),
    ensures
        r.wf(),
        tv(r) == t_reflect(tv(incoming), tv(normal)),
{
    let d = Vec3::dot(incoming, normal);
    let two_d = d.add(d);
    incoming.sub(normal.scale(two_d))
}

/// The diffuse scatter direction: normal plus unit offset, or the bare
/// normal where the sum degenerates to near zero.
pub open spec fn spec_lambertian_dir(n: (int, int, int), u: (int, int, int)) -> (int, int, int) {
    let s = t_add(n, u);
    if near_zero3(s.0, s.1, s.2) {
        n
    } else {
        s
    }
}

impl Lambertian {
    pub fn new(albedo: Color) -> (r: Lambertian)
        ensures
            r == (Lambertian { albedo }),
    {
        Lambertian { albedo }
    }

    pub fn new_arc(albedo: Color) -> (r: Arc<Lambertian>)
        ensures
            r == (Lambertian { albedo }),
    {
        Arc::new(Lambertian { albedo })
    }

    /// Deterministic core of diffuse scattering, over an explicit unit
    /// offset.
    pub fn scatter_with(&self, rec: &HitRecord, unit: Vec3) -> (r: Scatter)
        requires
            rec.wf(),
            unit.wf(),
        ensures
            r.attenuation == self.albedo,
            r.scattered_ray.orig == rec.point,
            tv(r.scattered_ray.dir) == spec_lambertian_dir(tv(rec.normal), tv(unit)),
            r.scattered_ray.wf(),
    {
        let summed = rec.normal.add(unit);
        let direction = if summed.near_zero() {
            rec.normal
        } else {
            summed
        };
        Scatter { scattered_ray: Ray::new(rec.point, direction), attenuation: self.albedo }
    }
}

/// The fuzzed metallic scatter direction for a given in-ball offset.
pub open spec fn spec_metal_dir(m: Metal, ray: Ray, rec: HitRecord, fuzz_vec: (int, int, int)) -> (
    int,
    int,
    int,
) {
    let u = t_normalized(tv(ray.dir));
    let refl = t_reflect(u, tv(rec.normal));
    t_add(refl, t_scale(fuzz_vec, m.fuzz@))
}

impl Metal {
    /// Builds the material, clamping `fuzz` into `[0, 1]`.
    pub fn new(albedo: Color, fuzz: Fx) -> (r: Metal)
        requires
            fuzz.wf(),
        ensures
            r.albedo == albedo,
            r.fuzz@ == if fuzz@ < 0 {
                0int
            } else if fuzz@ > SCALE as int {
                SCALE as int
            } else {
                fuzz@
            },
    {
        let zero = Fx::zero();
        let one = Fx::one();
        Metal { albedo, fuzz: fuzz.clamp(zero, one) }
    }

    /// Builds the material behind a shared handle, clamping `fuzz` into
    /// `[0, 1]`.
    pub fn new_arc(albedo: Color, fuzz: Fx) -> (r: Arc<Metal>)
        requires
            fuzz.wf(),
        ensures
            r.albedo == albedo,
            r.fuzz@ == if fuzz@ < 0 {
                0int
            } else if fuzz@ > SCALE as int {
                SCALE as int
            } else {
                fuzz@
            },
    {
        Arc::new(Metal::new(albedo, fuzz))
    }

    /// Deterministic core of metallic scattering, over an explicit in-ball
    /// offset: the reflected-and-fuzzed ray, or absorption where it points
    /// into the surface.
    pub fn scatter_with(&self, ray: &Ray, rec: &HitRecord, fuzz_vec: Vec3) -> (r: Option<Scatter>)
        requires
            ray.wf(),
            rec.wf(),
            fuzz_vec.wf(),
            self.fuzz.wf(),
            norm_sq(ray.dir) > 0,
        ensures
            ({
                let dir = spec_metal_dir(*self, *ray, *rec, tv(fuzz_vec));
                match r {
                    Some(s) => {
                        &&& t_dot(dir, tv(rec.normal)) > 0
                        &&& s.attenuation == self.albedo
                        &&& s.scattered_ray.orig == rec.point
                        &&& tv(s.scattered_ray.dir) == dir
                        &&& s.scattered_ray.wf()
                    },
                    None => t_dot(dir, tv(rec.normal)) <= 0,
                }
            }),
    {
        let unit = ray.dir().normalized();
        let reflected = reflect(unit, rec.normal);
        let scattered = reflected.add(fuzz_vec.scale(self.fuzz));
        let alignment = Vec3::dot(scattered, rec.normal);
        if alignment.raw > 0 {
            Some(
                Scatter {
                    scattered_ray: Ray::new(rec.point, scattered),
                    attenuation: self.albedo,
                },
            )
        } else {
            None
        }
    }
}

/// The index ratio at the boundary: entering uses the reciprocal index,
/// exiting the index itself.
pub open spec fn spec_ratio(d: Dielectric, front_face: bool) -> int {
    if front_face {
        fx_div(SCALE as int, d.refraction_index@)
    } else {
        d.refraction_index@
    }
}

/// Cosine of the angle between the (normalized) incoming direction and the
/// inward surface direction, capped at 1.
pub open spec fn spec_cos(u: (int, int, int), n: (int, int, int)) -> int {
    let c = t_dot(u, t_neg(n));
    if c <= SCALE as int {
        c
    } else {
        SCALE as int
    }
}

/// The squared sine of the transmitted angle, `ratio^2 (1 - cos^2)`; a
/// value above 1 means total internal reflection.
pub open spec fn spec_sin2_sq(cos: int, ratio: int) -> int {
    fx_mul(fx_mul(ratio, ratio), fx_sub(SCALE as int, fx_mul(cos, cos)))
}

/// Schlick's approximation of the Fresnel reflection coefficient.
pub open spec fn spec_reflectance(cos: int, ratio: int) -> int {
    let q = fx_div(fx_sub(SCALE as int, ratio), fx_add(SCALE as int, ratio));
    let r0 = fx_mul(q, q);
    let om = fx_sub(SCALE as int, cos);
    let om2 = fx_mul(om, om);
    let om4 = fx_mul(om2, om2);
    let om5 = fx_mul(om4, om);
    fx_add(r0, fx_mul(fx_sub(SCALE as int, r0), om5))
}

/// Reflection is chosen at the boundary when refraction is impossible
/// (total internal reflection) or the Schlick coefficient exceeds the
/// uniform draw.
pub open spec fn spec_reflects(cos: int, ratio: int, draw: int) -> bool {
    spec_sin2_sq(cos, ratio) > SCALE as int || spec_reflectance(cos, ratio) > draw
}

/// The refracted direction by Snell's law in vector form.
pub open spec fn spec_refract_dir(
    u: (int, int, int),
    n: (int, int, int),
    cos: int,
    ratio: int,
) -> (int, int, int) {
    let cos2 = fx_sqrt(fx_sub(SCALE as int, spec_sin2_sq(cos, ratio)));
    t_add(t_scale(u, ratio), t_scale(n, fx_sub(fx_mul(ratio, cos), cos2)))
}

impl Dielectric {
    pub fn new(refraction_index: Fx) -> (r: Dielectric)
        ensures
            r == (Dielectric { refraction_index }),
    {
        Dielectric { refraction_index }
    }

    pub fn new_rc(refraction_index: Fx) -> (r: Rc<Dielectric>)
        ensures
            r == (Dielectric { refraction_index }),
    {
        Rc::new(Dielectric { refraction_index })
    }

    /// Deterministic core of refractive scattering, over an explicit
    /// uniform draw in `[0, 1)`: glass never absorbs, so this always
    /// scatters, choosing reflection or refraction
    /// (`lemma_perpendicular_entry_refracts` rules total internal
    /// reflection out at perpendicular entry).
    pub fn scatter_with(&self, ray: &Ray, rec: &HitRecord, draw: Fx) -> (r: Scatter)
        requires
            ray.wf(),
            rec.wf(),
            draw.wf(),
            self.refraction_index.wf(),
            self.refraction_index@ > 0,
            norm_sq(ray.dir) > 0,
        ensures
            r.attenuation.0.e1@ == SCALE as int,
            r.attenuation.0.e2@ == SCALE as int,
            r.attenuation.0.e3@ == SCALE as int,
            r.scattered_ray.orig == rec.point,
            r.scattered_ray.wf(),
            ({
                let u = t_normalized(tv(ray.dir));
                let ratio = spec_ratio(*self, rec.front_face);
                let cos = spec_cos(u, tv(rec.normal));
                if spec_reflects(cos, ratio, draw@) {
                    tv(r.scattered_ray.dir) == t_reflect(u, tv(rec.normal))
                } else {
                    tv(r.scattered_ray.dir) == spec_refract_dir(u, tv(rec.normal), cos, ratio)
                }
            }),
    {
        let one = Fx::one();
        let ratio = if rec.front_face() {
            one.div(self.refraction_index)
        } else {
            self.refraction_index
        };
        let unit = ray.dir().normalized();
        let cos = Vec3::dot(unit, rec.normal.neg()).min(one);
        let sin2_sq = ratio.mul(ratio).mul(one.sub(cos.mul(cos)));
        let cannot_refract = sin2_sq.raw > SCALE;
        let refl = reflectance(cos, ratio);
        let direction = if cannot_refract || refl.raw > draw.raw {
            reflect(unit, rec.normal)
        } else {
            let cos2 = one.sub(sin2_sq).sqrt();
            unit.scale(ratio).add(rec.normal.scale(ratio.mul(cos).sub(cos2)))
        };
        Scatter {
            scattered_ray: Ray::new(rec.point, direction),
            attenuation: Color::rgb(one, one, one),
        }
    }
}

/// Schlick's approximation, executable form.
fn reflectance(cos: Fx, ratio: Fx) -> (r: Fx)
    requires
        cos.wf(),
        ratio.wf(),
        ratio@ >= 0,
    ensures
        r.wf(),
        r@ == spec_reflectance(cos@, ratio@),
{
    let one = Fx::one();
    let q = one.sub(ratio).div(one.add(ratio));
    let r0 = q.mul(q);
    let om = one.sub(cos);
    let om2 = om.mul(om);
    let om4 = om2.mul(om2);
    let om5 = om4.mul(om);
    r0.add(one.sub(r0).mul(om5))
}

/// A ray that meets the surface perpendicularly (`cos == 1`) while
/// entering a medium of index at least one can never suffer total internal
/// reflection, so refraction is chosen whenever the uniform draw is at
/// least the Schlick reflectance.
pub proof fn lemma_perpendicular_entry_refracts(d: Dielectric, draw: int)
    requires
        d.refraction_index.wf(),
        d.refraction_index@ >= SCALE as int,
    ensures
        ({
            let ratio = spec_ratio(d, true);
            &&& 0 < ratio <= SCALE as int
            &&& spec_sin2_sq(SCALE as int, ratio) == 0
            &&& (draw >= spec_reflectance(SCALE as int, ratio) ==> !spec_reflects(
                SCALE as int,
                ratio,
                draw,
            ))
        }),
{
    let ri = d.refraction_index@;
    let num = (SCALE as int) * (SCALE as int);
    assert(tdiv(num, ri) == num / ri);
    vstd::arithmetic::div_mod::lemma_div_non_zero(num, ri);
    vstd::arithmetic::div_mod::lemma_div_is_ordered_by_denominator(num, SCALE as int, ri);
    assert(num / (SCALE as int) == SCALE as int) by {
        vstd::arithmetic::div_mod::lemma_div_multiples_vanish(SCALE as int, SCALE as int);
    }
    let ratio = spec_ratio(d, true);
    assert(0 < ratio <= SCALE as int);
    let cos2 = fx_mul(SCALE as int, SCALE as int);
    assert(cos2 == SCALE as int) by {
        vstd::arithmetic::div_mod::lemma_div_multiples_vanish(SCALE as int, SCALE as int);
    }
    let r2 = fx_mul(ratio, ratio);
    assert(r2 * 0 == 0) by (nonlinear_arith);
    assert(fx_mul(r2, fx_sub(SCALE as int, cos2)) == 0);
}

impl Material {
    /// Physical sanity of the material parameters: albedos keep each
    /// channel in `[0, 1]` (no bounce gains energy), fuzz lies in `[0, 1]`
    /// and a refraction index is positive.
    pub open spec fn wf(self) -> bool {
        match self {
            Material::Lambertian(l) => l.albedo.wf() && l.albedo.in_unit(),
            Material::Metal(m) => {
                &&& m.albedo.wf()
                &&& m.albedo.in_unit()
                &&& 0 <= m.fuzz@ <= SCALE as int
            },
            Material::Dielectric(d) => d.refraction_index.wf() && d.refraction_index@ > 0,
        }
    }

    /// Runtime check of `wf`, for callers outside the proof.
    pub fn is_wf(&self) -> (r: bool)
        ensures
            r == self.wf(),
    {
        match self {
            Material::Lambertian(l) => {
                let a = l.albedo.0;
                0 <= a.e1.raw && a.e1.raw <= SCALE && 0 <= a.e2.raw && a.e2.raw <= SCALE && 0
                    <= a.e3.raw && a.e3.raw <= SCALE
            },
            Material::Metal(m) => {
                let a = m.albedo.0;
                0 <= a.e1.raw && a.e1.raw <= SCALE && 0 <= a.e2.raw && a.e2.raw <= SCALE && 0
                    <= a.e3.raw && a.e3.raw <= SCALE && 0 <= m.fuzz.raw && m.fuzz.raw <= SCALE
            },
            Material::Dielectric(d) => {
                -LIM <= d.refraction_index.raw && d.refraction_index.raw <= LIM
                    && d.refraction_index.raw > 0
            },
        }
    }

    /// Scatters an incoming ray at a hit, drawing what randomness the
    /// material consumes from `rng`.  Absorption is `None`; any scattered
    /// ray starts at the hit point, and its attenuation never amplifies a
    /// channel.
    pub fn scatter(&self, ray: &Ray, rec: &HitRecord, rng: &mut RngState) -> (r: Option<Scatter>)
        requires
            ray.wf(),
            rec.wf(),
            norm_sq(ray.dir) > 0,
            self.wf(),
        ensures
            match r {
                Some(s) => {
                    &&& s.scattered_ray.wf()
                    &&& s.attenuation.wf()
                    &&& s.attenuation.in_unit()
                    &&& s.scattered_ray.orig == rec.point
                },
                None => self matches Material::Metal(_),
            },
            match *self {
                Material::Lambertian(l) => match r {
                    Some(s) => {
                        &&& s.attenuation == l.albedo
                        &&& exists|u: Vec3|
                            {
                                &&& u.wf()
                                &&& (SCALE as int) - 3 <= t_size(tv(u)) <= (SCALE as int) + 3
                                &&& tv(s.scattered_ray.dir) == spec_lambertian_dir(
                                    tv(rec.normal),
                                    tv(u),
                                )
                            }
                    },
                    None => false,
                },
                Material::Metal(m) => match r {
                    Some(s) => {
                        &&& s.attenuation == m.albedo
                        &&& t_dot(tv(s.scattered_ray.dir), tv(rec.normal)) > 0
                    },
                    None => true,
                },
                Material::Dielectric(_) => match r {
                    Some(s) => {
                        &&& s.attenuation.0.e1@ == SCALE as int
                        &&& s.attenuation.0.e2@ == SCALE as int
                        &&& s.attenuation.0.e3@ == SCALE as int
                    },
                    None => false,
                },
            },
    {
        match self {
            Material::Lambertian(l) => {
                let unit = random_unit_vector(rng);
                let scattered = l.scatter_with(rec, unit);
                proof {
                    assert({
                        &&& unit.wf()
                        &&& (SCALE as int) - 3 <= t_size(tv(unit)) <= (SCALE as int) + 3
                        &&& tv(scattered.scattered_ray.dir) == spec_lambertian_dir(
                            tv(rec.normal),
                            tv(unit),
                        )
                    });
                }
                Some(scattered)
            },
            Material::Metal(m) => {
                let fuzz_vec = random_in_unit_sphere(rng);
                m.scatter_with(ray, rec, fuzz_vec)
            },
            Material::Dielectric(d) => {
                let draw = rng.next_unit();
                Some(d.scatter_with(ray, rec, draw))
            },
        }
    }
}

} // verus!
