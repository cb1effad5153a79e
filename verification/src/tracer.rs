//! The recursive color integrator: follows a ray through the scene,
//! bouncing off materials and compounding attenuation, until the depth
//! budget runs out, the ray is absorbed, or it escapes to the background
//! gradient.

use crate::color::{clamp01, Color};
use crate::fx::{fx_add, fx_mul, fx_sqrt, fx_sub, is_sqrt, lemma_sqrt_unique, sqrt_floor, tdiv, Fx,
    LIM, SCALE};
use crate::list::{spec_list_hit, HittableList};
use crate::material::Material;
use crate::ray::Ray;
use crate::rng::RngState;
use crate::sphere::Sphere;
use crate::v3::{norm_sq, t_add, t_normalized, tv};
use vstd::prelude::*;

verus! {

/// Lower end of the search interval (about 0.001): excludes the ray's own
/// origin surface, so floating departures from it do not self-intersect.
pub const SHADOW_EPS: i64 = 4294967;

/// Half a unit, raw.
pub const HALF: i64 = 2147483648;

/// The green channel of the zenith color (0.7, raw).
pub const SKY_TOP_G: i64 = 3006477107;

/// The background gradient: a blend from white at the horizon to sky blue
/// at the zenith, driven by the normalized direction's height.  The blend
/// parameter is clamped into `[0, 1]`; for a direction of length at least
/// one it already lies there.  A degenerate zero direction contributes
/// black, mirroring the policy that a sample that would be undefined is a
/// zero contribution.
pub open spec fn spec_background(ray: Ray) -> (int, int, int) {
    if tv(ray.dir) == ((0int, 0int, 0int)) {
        (0int, 0int, 0int)
    } else {
        let u = t_normalized(tv(ray.dir));
        let t = clamp01(fx_mul(HALF as int, fx_add(u.1, SCALE as int)));
        let tb = fx_sub(SCALE as int, t);
        let w = fx_mul(SCALE as int, SCALE as int);
        let s0 = fx_mul(HALF as int, HALF as int);
        let s1 = fx_mul(SKY_TOP_G as int, SKY_TOP_G as int);
        (
            fx_add(fx_mul(w, tb), fx_mul(s0, t)),
            fx_add(fx_mul(w, tb), fx_mul(s1, t)),
            fx_add(fx_mul(w, tb), fx_mul(w, t)),
        )
    }
}

/// The product of two channels in `[0, 1]` stays in `[0, 1]`.
pub proof fn lemma_mul_in_unit(a: int, b: int)
    requires
        0 <= a <= SCALE as int,
        0 <= b <= SCALE as int,
    ensures
        0 <= fx_mul(a, b) <= SCALE as int,
{
    assert(0 <= a * b <= (SCALE as int) * (SCALE as int)) by (nonlinear_arith)
        requires
            0 <= a <= SCALE as int,
            0 <= b <= SCALE as int,
    ;
    assert(tdiv(a * b, SCALE as int) == (a * b) / (SCALE as int));
    assert(0 <= (a * b) / (SCALE as int) <= SCALE as int) by (nonlinear_arith)
        requires
            0 <= a * b <= (SCALE as int) * (SCALE as int),
    ;
}

/// Scaling a nonnegative value by a factor in `[0, 1]` does not grow it.
pub proof fn lemma_unit_scale(c: int, x: int)
    requires
        0 <= c <= SCALE as int,
        0 <= x <= LIM as int,
    ensures
        0 <= fx_mul(x, c) <= x,
{
    assert(0 <= x * c) by (nonlinear_arith)
        requires
            0 <= c,
            0 <= x,
    ;
    assert(x * c < (x + 1) * (SCALE as int)) by (nonlinear_arith)
        requires
            0 <= c <= SCALE as int,
            0 <= x,
    ;
    assert(tdiv(x * c, SCALE as int) == (x * c) / (SCALE as int));
    assert(0 <= (x * c) / (SCALE as int) <= x) by (nonlinear_arith)
        requires
            0 <= x * c,
            x * c < (x + 1) * (SCALE as int),
    ;
}

/// The square root of a channel in `[0, 1]` stays in `[0, 1]`.
pub proof fn lemma_sqrt_in_unit(x: int)
    requires
        0 <= x <= SCALE as int,
    ensures
        0 <= crate::fx::fx_sqrt(x) <= SCALE as int,
{
    crate::fx::lemma_sqrt_floor(x * (SCALE as int));
    let r = sqrt_floor(x * (SCALE as int));
    assert(x * (SCALE as int) <= (SCALE as int) * (SCALE as int)) by (nonlinear_arith)
        requires
            0 <= x <= SCALE as int,
    ;
    assert(r <= SCALE as int) by (nonlinear_arith)
        requires
            0 <= r,
            r * r <= (SCALE as int) * (SCALE as int),
    ;
}

/// Computes the color carried by a ray: black once the depth budget is
/// exhausted or on absorption, the scattered color attenuated by the
/// material on a hit, the background gradient on a miss.  No bounce
/// amplifies a channel, so the result always stays in `[0, 1]`.
pub fn ray_color(ray: &Ray, world: &HittableList, depth: usize, rng: &mut RngState) -> (c: Color)
    requires
        ray.wf(),
        world.wf(),
    ensures
        c.wf(),
        c.in_unit(),
        depth == 0 ==> tv(c.0) == ((0int, 0int, 0int)),
        depth > 0 && spec_list_hit(world.hittables@, *ray, SHADOW_EPS as int, LIM as int)
            is None ==> tv(c.0) == spec_background(*ray),
        depth > 0 ==> match spec_list_hit(world.hittables@, *ray, SHADOW_EPS as int, LIM as int) {
            Some(rec) => match rec.material {
                Material::Lambertian(l) => {
                    &&& c.0.e1@ <= l.albedo.0.e1@
                    &&& c.0.e2@ <= l.albedo.0.e2@
                    &&& c.0.e3@ <= l.albedo.0.e3@
                },
                Material::Metal(m) => {
                    &&& c.0.e1@ <= m.albedo.0.e1@
                    &&& c.0.e2@ <= m.albedo.0.e2@
                    &&& c.0.e3@ <= m.albedo.0.e3@
                },
                Material::Dielectric(_) => true,
            },
            None => true,
        },
    decreases depth,
{
    if depth == 0 {
        return Color::rgb(Fx::zero(), Fx::zero(), Fx::zero());
    }
    let eps = Fx { raw: SHADOW_EPS };
    let inf = Fx { raw: LIM };
    match world.hit(ray, eps, inf) {
        Some(rec) => {
            match rec.material.scatter(ray, &rec, rng) {
                Some(s) => {
                    let followed = ray_color(s.ray(), world, depth - 1, rng);
                    proof {
                        lemma_mul_in_unit(s.attenuation.0.e1@, followed.0.e1@);
                        lemma_mul_in_unit(s.attenuation.0.e2@, followed.0.e2@);
                        lemma_mul_in_unit(s.attenuation.0.e3@, followed.0.e3@);
                        lemma_unit_scale(followed.0.e1@, s.attenuation.0.e1@);
                        lemma_unit_scale(followed.0.e2@, s.attenuation.0.e2@);
                        lemma_unit_scale(followed.0.e3@, s.attenuation.0.e3@);
                    }
                    s.attenuation().mul(followed)
                },
                None => Color::rgb(Fx::zero(), Fx::zero(), Fx::zero()),
            }
        },
        None => {
            let d = ray.dir();
            if d.e1.raw == 0 && d.e2.raw == 0 && d.e3.raw == 0 {
                return Color::rgb(Fx::zero(), Fx::zero(), Fx::zero());
            }
            proof {
                assert(norm_sq(ray.dir) > 0) by (nonlinear_arith)
                    requires
                        norm_sq(ray.dir) == ray.dir.e1@ * ray.dir.e1@ + ray.dir.e2@ * ray.dir.e2@
                            + ray.dir.e3@ * ray.dir.e3@,
                        ray.dir.e1@ != 0 || ray.dir.e2@ != 0 || ray.dir.e3@ != 0,
                ;
            }
            let one = Fx::one();
            let zero = Fx::zero();
            let half = Fx { raw: HALF };
            let unit = ray.dir().normalized();
            let t = half.mul(unit.y().add(one)).clamp(zero, one);
            let tb = one.sub(t);
            let bottom = Color::rgb(one, one, one).into_gamma();
            let top = Color::rgb(half, Fx { raw: SKY_TOP_G }, one).into_gamma();
            proof {
                lemma_mul_in_unit(SCALE as int, SCALE as int);
                lemma_mul_in_unit(HALF as int, HALF as int);
                lemma_mul_in_unit(SKY_TOP_G as int, SKY_TOP_G as int);
                lemma_unit_scale(fx_mul(SCALE as int, SCALE as int), tb@);
                lemma_unit_scale(fx_mul(SCALE as int, SCALE as int), t@);
                lemma_unit_scale(fx_mul(HALF as int, HALF as int), t@);
                lemma_unit_scale(fx_mul(SKY_TOP_G as int, SKY_TOP_G as int), t@);
            }
            bottom.scale(tb).add(top.scale(t))
        },
    }
}

/// What holds of every per-ray integrator sample, whatever was drawn: a
/// well-formed color in `[0, 1]`, black when the depth budget is zero,
/// and the exact background gradient when the ray misses the whole scene.
pub open spec fn spec_sample_ok(col: Color, ray: Ray, objs: Seq<Sphere>, depth: int) -> bool {
    &&& col.wf()
    &&& col.in_unit()
    &&& (depth == 0 ==> tv(col.0) == ((0int, 0int, 0int)))
    &&& (depth > 0 && spec_list_hit(objs, ray, SHADOW_EPS as int, LIM as int) is None ==> tv(col.0)
        == spec_background(ray))
}

/// Per-sample colors accumulated in order by saturating addition.
pub open spec fn spec_accum(samples: Seq<Color>) -> (int, int, int)
    decreases samples.len(),
{
    if samples.len() == 0 {
        (0int, 0int, 0int)
    } else {
        t_add(spec_accum(samples.drop_last()), tv(samples.last().0))
    }
}

/// The background colors of a ray sequence, accumulated in order.
pub open spec fn spec_bg_accum(rays: Seq<Ray>) -> (int, int, int)
    decreases rays.len(),
{
    if rays.len() == 0 {
        (0int, 0int, 0int)
    } else {
        t_add(spec_bg_accum(rays.drop_last()), spec_background(rays.last()))
    }
}

/// The display finish of an accumulated color: the per-sample average,
/// clamped into `[0, 1]`, under the square-root transform.
pub open spec fn spec_finish(acc: (int, int, int), n: int) -> (int, int, int) {
    (
        fx_sqrt(clamp01(tdiv(acc.0, n))),
        fx_sqrt(clamp01(tdiv(acc.1, n))),
        fx_sqrt(clamp01(tdiv(acc.2, n))),
    )
}

/// All-black samples accumulate to black.
proof fn lemma_accum_black(samples: Seq<Color>)
    requires
        forall|k: int|
            0 <= k < samples.len() ==> tv((#[trigger] samples[k]).0) == ((0int, 0int, 0int)),
    ensures
        spec_accum(samples) == ((0int, 0int, 0int)),
    decreases samples.len(),
{
    if samples.len() > 0 {
        assert forall|k: int| 0 <= k < samples.drop_last().len() implies tv(
            (#[trigger] samples.drop_last()[k]).0,
        ) == ((0int, 0int, 0int)) by {
            assert(samples.drop_last()[k] == samples[k]);
        }
        lemma_accum_black(samples.drop_last());
        assert(samples.last() == samples[samples.len() - 1]);
    }
}

/// Samples that each equal their ray's background accumulate to the
/// accumulated backgrounds.
proof fn lemma_accum_background(samples: Seq<Color>, rays: Seq<Ray>)
    requires
        samples.len() == rays.len(),
        forall|k: int|
            0 <= k < samples.len() ==> tv((#[trigger] samples[k]).0) == spec_background(rays[k]),
    ensures
        spec_accum(samples) == spec_bg_accum(rays),
    decreases samples.len(),
{
    if samples.len() > 0 {
        assert forall|k: int| 0 <= k < samples.drop_last().len() implies tv(
            (#[trigger] samples.drop_last()[k]).0,
        ) == spec_background(rays.drop_last()[k]) by {
            assert(samples.drop_last()[k] == samples[k]);
            assert(rays.drop_last()[k] == rays[k]);
        }
        lemma_accum_background(samples.drop_last(), rays.drop_last());
        assert(samples.last() == samples[samples.len() - 1]);
        assert(rays.last() == rays[rays.len() - 1]);
    }
}

/// A black accumulation finishes to black.
proof fn lemma_finish_zero(n: int)
    requires
        n > 0,
    ensures
        spec_finish((0int, 0int, 0int), n) == ((0int, 0int, 0int)),
{
    vstd::arithmetic::div_mod::lemma_div_of0(n);
    assert(tdiv(0, n) == 0);
    assert(is_sqrt(0, 0)) by (nonlinear_arith);
    lemma_sqrt_unique(0, 0);
}

/// Averages one integrator sample per supplied ray and applies the
/// square-root display transform: the finished color for one pixel.  The
/// result is the finish of some accumulation of per-ray samples, each
/// satisfying the integrator's contract; in the draw-independent cases —
/// an exhausted depth budget, or every ray missing the scene — the result
/// is pinned exactly.
pub fn sample_pixel(rays: &Vec<Ray>, world: &HittableList, depth: usize, rng: &mut RngState) -> (c:
    Color)
    requires
        world.wf(),
        rays@.len() > 0,
        forall|k: int| 0 <= k < rays@.len() ==> (#[trigger] rays@[k]).wf(),
    ensures
        c.wf(),
        c.in_unit(),
        exists|samples: Seq<Color>|
            {
                &&& samples.len() == rays@.len()
                &&& (forall|k: int|
                    0 <= k < samples.len() ==> spec_sample_ok(
                        #[trigger] samples[k],
                        rays@[k],
                        world.hittables@,
                        depth as int,
                    ))
                &&& tv(c.0) == spec_finish(spec_accum(samples), rays@.len() as int)
            },
        depth == 0 ==> tv(c.0) == ((0int, 0int, 0int)),
        (depth > 0 && (forall|k: int|
            0 <= k < rays@.len() ==> spec_list_hit(
                world.hittables@,
                #[trigger] rays@[k],
                SHADOW_EPS as int,
                LIM as int,
            ) is None)) ==> tv(c.0) == spec_finish(spec_bg_accum(rays@), rays@.len() as int),
{
    let mut accum = Color::rgb(Fx::zero(), Fx::zero(), Fx::zero());
    let ghost mut samples: Seq<Color> = Seq::empty();
    let mut i: usize = 0;
    let n = rays.len();
    while i < n
        invariant
            i <= n,
            n == rays@.len(),
            world.wf(),
            forall|k: int| 0 <= k < rays@.len() ==> (#[trigger] rays@[k]).wf(),
            accum.wf(),
            samples.len() == i as int,
            forall|k: int|
                0 <= k < i ==> spec_sample_ok(
                    #[trigger] samples[k],
                    rays@[k],
                    world.hittables@,
                    depth as int,
                ),
            tv(accum.0) == spec_accum(samples),
        decreases n - i,
    {
        let sample = ray_color(&rays[i], world, depth, rng);
        let ghost prev = samples;
        proof {
            samples = samples.push(sample);
            assert(samples.drop_last() =~= prev);
            assert(samples.last() == sample);
        }
        accum.add_assign(sample);
        i = i + 1;
    }
    let averaged = accum.sampled(n);
    let finished = averaged.gamma_corrected();
    proof {
        lemma_sqrt_in_unit(averaged.0.e1@);
        lemma_sqrt_in_unit(averaged.0.e2@);
        lemma_sqrt_in_unit(averaged.0.e3@);
        assert(tv(finished.0) == spec_finish(spec_accum(samples), rays@.len() as int));
        if depth == 0 {
            assert forall|k: int| 0 <= k < samples.len() implies tv((#[trigger] samples[k]).0)
                == ((0int, 0int, 0int)) by {}
            lemma_accum_black(samples);
            lemma_finish_zero(rays@.len() as int);
        }
        if depth > 0 && (forall|k: int|
            0 <= k < rays@.len() ==> spec_list_hit(
                world.hittables@,
                #[trigger] rays@[k],
                SHADOW_EPS as int,
                LIM as int,
            ) is None) {
            assert forall|k: int| 0 <= k < samples.len() implies tv((#[trigger] samples[k]).0)
                == spec_background(rays@[k]) by {}
            lemma_accum_background(samples, rays@);
        }
    }
    finished
}

} // verus!
