//! Random vector sampling used by the scattering models.

use crate::fx::{fx_mul, fx_sub, lemma_wide_product_bounded, tdiv, Fx, LIM, SCALE};
use crate::rng::RngState;
use crate::v3::{fx_lerp, lemma_normalized_unit, lerp, norm_sq, t_normalized, t_size, tv, Vec3};
use vstd::prelude::*;

verus! {

/// Rejection sampling gives up after this many draws and falls back to a
/// fixed in-ball vector.
const MAX_TRIES: usize = 64;

/// Lower bound on the squared raw length of an accepted sample:
/// (SCALE/2)^2, the squared raw length of a vector of length 1/2.
/// Shorter samples are rejected because fixed-point normalization cannot
/// bring them to unit length at the stated tolerance.
pub const BALL_SQ_MIN: i64 = 4611686018427387904;

impl Vec3 {
    /// A vector with each component drawn independently from `[min, max]`.
    pub fn random(min: Fx, max: Fx, rng: &mut RngState) -> (r: Vec3)
        requires
            min.wf(),
            max.wf(),
            min@ <= max@,
        ensures
            r.wf(),
            min@ <= r.e1@ <= max@,
            min@ <= r.e2@ <= max@,
            min@ <= r.e3@ <= max@,
    {
        let t1 = rng.next_unit();
        let t2 = rng.next_unit();
        let t3 = rng.next_unit();
        let e1 = lerp(min, max, t1);
        let e2 = lerp(min, max, t2);
        let e3 = lerp(min, max, t3);
        proof {
            lemma_lerp_in_range(min@, max@, t1@);
            lemma_lerp_in_range(min@, max@, t2@);
            lemma_lerp_in_range(min@, max@, t3@);
        }
        Vec3 { e1, e2, e3 }
    }
}

/// Interpolation with a parameter in `[0, 1)` lands inside `[min, max]`.
pub proof fn lemma_lerp_in_range(min: int, max: int, t: int)
    requires
        -(LIM as int) <= min <= max <= LIM as int,
        0 <= t < SCALE as int,
    ensures
        min <= fx_lerp(min, max, t) <= max,
{
    let d = fx_sub(max, min);
    assert(0 <= d <= max - min);
    let m = fx_mul(t, d);
    assert(0 <= t * d) by (nonlinear_arith)
        requires
            0 <= t,
            0 <= d,
    ;
    assert(t * d < (d + 1) * (SCALE as int)) by (nonlinear_arith)
        requires
            0 <= d,
            0 <= t < SCALE as int,
    ;
    assert(tdiv(t * d, SCALE as int) == (t * d) / (SCALE as int));
    assert((t * d) / (SCALE as int) <= d) by (nonlinear_arith)
        requires
            0 <= t * d,
            t * d < (d + 1) * (SCALE as int),
            (SCALE as int) > 0,
    ;
    assert(0 <= m <= d);
}

/// A uniformly random vector inside the unit ball, excluding a small ball
/// around the origin, by bounded rejection sampling over the enclosing
/// cube; after `MAX_TRIES` rejections a fixed half-unit vector is
/// returned so the function stays total.
pub fn random_in_unit_sphere(rng: &mut RngState) -> (r: Vec3)
    ensures
        r.wf(),
        BALL_SQ_MIN as int <= norm_sq(r) < (SCALE as int) * (SCALE as int),
{
    let mut tries: usize = 0;
    while tries < MAX_TRIES
        decreases MAX_TRIES - tries,
    {
        let neg_one = Fx { raw: -SCALE };
        let one = Fx { raw: SCALE };
        let v = Vec3::random(neg_one, one, rng);
        proof {
            lemma_wide_product_bounded(v.e1@, v.e1@);
            lemma_wide_product_bounded(v.e2@, v.e2@);
            lemma_wide_product_bounded(v.e3@, v.e3@);
        }
        let p1: i128 = (v.e1.raw as i128) * (v.e1.raw as i128);
        let p2: i128 = (v.e2.raw as i128) * (v.e2.raw as i128);
        let p3: i128 = (v.e3.raw as i128) * (v.e3.raw as i128);
        let sum: i128 = p1 + p2 + p3;
        if sum >= BALL_SQ_MIN as i128 && sum < 18446744073709551616i128 {
            return v;
        }
        tries = tries + 1;
    }
    // half a unit along the first axis: squared raw length 2^62
    Vec3 { e1: Fx { raw: 2147483648 }, e2: Fx { raw: 0 }, e3: Fx { raw: 0 } }
}

/// A random vector of unit length within three units of the last place
/// (`lemma_normalized_unit`): a unit-ball sample, normalized.
pub fn random_unit_vector(rng: &mut RngState) -> (r: Vec3)
    ensures
        r.wf(),
        (SCALE as int) - 3 <= t_size(tv(r)) <= (SCALE as int) + 3,
        exists|v: Vec3|
            {
                &&& v.wf()
                &&& BALL_SQ_MIN as int <= norm_sq(v) < (SCALE as int) * (SCALE as int)
                &&& tv(r) == t_normalized(tv(v))
            },
{
    let v = random_in_unit_sphere(rng);
    let n = v.normalized();
    proof {
        lemma_normalized_unit(v);
        assert({
            &&& v.wf()
            &&& BALL_SQ_MIN as int <= norm_sq(v) < (SCALE as int) * (SCALE as int)
            &&& tv(n) == t_normalized(tv(v))
        });
    }
    n
}

} // verus!
