//! Three-component vectors over the fixed-point scalar.

use crate::fx::{
    clamp_i128, clamp_raw, fx_add, fx_div, fx_mul, fx_sub, iabs, is_sqrt, lemma_sqrt_floor,
    lemma_sqrt_unique, lemma_tdiv_remainder, lemma_wide_product_bounded, sqrt_floor, tdiv,
    tdiv_i128, Fx, LIM, SCALE,
};
use vstd::prelude::*;

verus! {

/// Components whose raw magnitude is at most this bound count as a
/// near-zero vector (about 1.5e-8).
pub const NEAR_EPS: i64 = 64;

#[derive(Clone, Copy, Debug, PartialEq, Eq, Structural)]
pub struct Vec3 {
    pub e1: Fx,
    pub e2: Fx,
    pub e3: Fx,
}

/// The exact (unclamped, unscaled) sum of component products, in units of
/// raw * raw.
pub open spec fn dot_wide(a: Vec3, b: Vec3) -> int {
    a.e1@ * b.e1@ + a.e2@ * b.e2@ + a.e3@ * b.e3@
}

/// The exact sum of squared raw components.
pub open spec fn norm_sq(v: Vec3) -> int {
    dot_wide(v, v)
}

/// Raw result of the fixed-point dot product.
pub open spec fn fx_dot(a: Vec3, b: Vec3) -> int {
    clamp_raw(tdiv(dot_wide(a, b), SCALE as int))
}

/// Raw result of the fixed-point vector length.
pub open spec fn fx_size(v: Vec3) -> int {
    clamp_raw(sqrt_floor(norm_sq(v)))
}

/// All of `a`, `b`, `c` are within `NEAR_EPS` of zero.
pub open spec fn near_zero3(a: int, b: int, c: int) -> bool {
    &&& iabs(a) <= NEAR_EPS as int
    &&& iabs(b) <= NEAR_EPS as int
    &&& iabs(c) <= NEAR_EPS as int
}

/// All components are within `NEAR_EPS` of zero.
pub open spec fn is_near_zero(v: Vec3) -> bool {
    near_zero3(v.e1@, v.e2@, v.e3@)
}

/// The raw component values of a vector, as a spec-level triple.
pub open spec fn tv(v: Vec3) -> (int, int, int) {
    (v.e1@, v.e2@, v.e3@)
}

/// The scalar whose raw representation is `x` (which must fit in the
/// representation for this to be faithful).
pub open spec fn fx_of(x: int) -> Fx {
    Fx { raw: x as i64 }
}

/// The vector whose raw component values are `t`.
pub open spec fn v3_of(t: (int, int, int)) -> Vec3 {
    Vec3 { e1: fx_of(t.0), e2: fx_of(t.1), e3: fx_of(t.2) }
}

/// Componentwise fixed-point sum of raw triples.
pub open spec fn t_add(a: (int, int, int), b: (int, int, int)) -> (int, int, int) {
    (fx_add(a.0, b.0), fx_add(a.1, b.1), fx_add(a.2, b.2))
}

/// Componentwise fixed-point difference of raw triples.
pub open spec fn t_sub(a: (int, int, int), b: (int, int, int)) -> (int, int, int) {
    (fx_sub(a.0, b.0), fx_sub(a.1, b.1), fx_sub(a.2, b.2))
}

/// Componentwise negation of a raw triple.
pub open spec fn t_neg(a: (int, int, int)) -> (int, int, int) {
    (-a.0, -a.1, -a.2)
}

/// Componentwise fixed-point scaling of a raw triple.
pub open spec fn t_scale(a: (int, int, int), s: int) -> (int, int, int) {
    (fx_mul(a.0, s), fx_mul(a.1, s), fx_mul(a.2, s))
}

/// Raw fixed-point dot product of raw triples.
pub open spec fn t_dot(a: (int, int, int), b: (int, int, int)) -> int {
    clamp_raw(tdiv(a.0 * b.0 + a.1 * b.1 + a.2 * b.2, SCALE as int))
}

/// Exact sum of squares of a raw triple.
pub open spec fn t_norm_sq(a: (int, int, int)) -> int {
    a.0 * a.0 + a.1 * a.1 + a.2 * a.2
}

/// Raw fixed-point length of a raw triple.
pub open spec fn t_size(a: (int, int, int)) -> int {
    clamp_raw(sqrt_floor(t_norm_sq(a)))
}

/// Raw fixed-point normalization of a raw triple.
pub open spec fn t_normalized(a: (int, int, int)) -> (int, int, int) {
    (fx_div(a.0, t_size(a)), fx_div(a.1, t_size(a)), fx_div(a.2, t_size(a)))
}

/// Negating one argument of the dot product negates the result exactly:
/// truncation rounds toward zero and saturation is symmetric.
pub proof fn lemma_t_dot_neg(a: (int, int, int), b: (int, int, int))
    ensures
        t_dot(a, t_neg(b)) == -t_dot(a, b),
{
    let s = a.0 * b.0 + a.1 * b.1 + a.2 * b.2;
    let sn = a.0 * (-b.0) + a.1 * (-b.1) + a.2 * (-b.2);
    assert(sn == -s) by (nonlinear_arith)
        requires
            s == a.0 * b.0 + a.1 * b.1 + a.2 * b.2,
            sn == a.0 * (-b.0) + a.1 * (-b.1) + a.2 * (-b.2),
    ;
    assert(tdiv(-s, SCALE as int) == -tdiv(s, SCALE as int));
    assert(clamp_raw(-tdiv(s, SCALE as int)) == -clamp_raw(tdiv(s, SCALE as int)));
}

/// Raw result of the linear interpolation `min + t * (max - min)`.
pub open spec fn fx_lerp(min: int, max: int, t: int) -> int {
    fx_add(min, fx_mul(t, fx_sub(max, min)))
}

/// Adding a vector to its own negation gives the zero vector exactly:
/// negation is exact, and a sum of opposite raw values saturates nowhere.
pub proof fn lemma_neg_add_zero(v: Vec3)
    requires
        v.wf(),
    ensures
        t_add(tv(v), t_neg(tv(v))) == ((0int, 0int, 0int)),
{
}

/// Interpolation is exact at both endpoints: `lerp(min, max, 0) == min`
/// and `lerp(min, max, 1) == max`, whenever the span `max - min` is
/// representable.
pub proof fn lemma_lerp_endpoints(min: int, max: int)
    requires
        -(LIM as int) <= min <= LIM as int,
        -(LIM as int) <= max <= LIM as int,
        -(LIM as int) <= max - min <= LIM as int,
    ensures
        fx_lerp(min, max, 0) == min,
        fx_lerp(min, max, SCALE as int) == max,
{
    let d = fx_sub(max, min);
    assert(d == max - min);
    assert(fx_mul(0, d) == 0);
    if d >= 0 {
        vstd::arithmetic::div_mod::lemma_div_multiples_vanish(d, SCALE as int);
        assert((SCALE as int) * d >= 0) by (nonlinear_arith)
            requires
                d >= 0,
        ;
        assert(tdiv((SCALE as int) * d, SCALE as int) == d);
    } else {
        vstd::arithmetic::div_mod::lemma_div_multiples_vanish(-d, SCALE as int);
        assert((SCALE as int) * d < 0 && -((SCALE as int) * d) == (SCALE as int) * (-d))
            by (nonlinear_arith)
            requires
                d < 0,
        ;
        assert(tdiv((SCALE as int) * d, SCALE as int) == d);
    }
    assert(fx_mul(SCALE as int, d) == d);
}

/// Normalizing a vector yields a vector of unit length: for any vector
/// whose length lies between one half and the saturation bound, the
/// length of `normalized(v)` is 1 within three units of the last place of
/// the representation (under 1e-9).  Vectors shorter than one half are
/// excluded: the integer square root of their tiny squared length carries
/// too large a relative error to meet this tolerance.  The lower bound on
/// the squared length is (SCALE/2)^2, i.e. 2^62.
pub proof fn lemma_normalized_unit(v: Vec3)
    requires
        v.wf(),
        4611686018427387904 <= norm_sq(v),
        norm_sq(v) <= (LIM as int) * (LIM as int),
    ensures
        (SCALE as int) - 3 <= t_size(t_normalized(tv(v))) <= (SCALE as int) + 3,
{
    let ss = SCALE as int;
    let hs: int = 2147483648;
    let q = norm_sq(v);
    let l = sqrt_floor(q);
    lemma_sqrt_floor(q);
    assert(hs <= l && l <= LIM as int) by (nonlinear_arith)
        requires
            0 <= l,
            l * l <= q,
            q < (l + 1) * (l + 1),
            hs * hs <= q,
            q <= (LIM as int) * (LIM as int),
            0 < hs,
            0 < LIM as int,
    ;
    assert(ss <= 2 * l);
    assert(t_size(tv(v)) == l);
    let v1 = v.e1@;
    let v2 = v.e2@;
    let v3 = v.e3@;
    let a1 = iabs(v1);
    let a2 = iabs(v2);
    let a3 = iabs(v3);
    assert(a1 * a1 == v1 * v1 && a2 * a2 == v2 * v2 && a3 * a3 == v3 * v3) by (nonlinear_arith)
        requires
            a1 == v1 || a1 == -v1,
            a2 == v2 || a2 == -v2,
            a3 == v3 || a3 == -v3,
    ;
    assert(a1 <= l && a2 <= l && a3 <= l) by (nonlinear_arith)
        requires
            0 <= a1 && 0 <= a2 && 0 <= a3,
            0 <= l,
            a1 * a1 + a2 * a2 + a3 * a3 == q,
            q < (l + 1) * (l + 1),
    ;
    let c1 = v1 * ss;
    let c2 = v2 * ss;
    let c3 = v3 * ss;
    let q1 = tdiv(c1, l);
    let q2 = tdiv(c2, l);
    let q3 = tdiv(c3, l);
    lemma_tdiv_remainder(c1, l);
    lemma_tdiv_remainder(c2, l);
    lemma_tdiv_remainder(c3, l);
    let r1 = c1 - q1 * l;
    let r2 = c2 - q2 * l;
    let r3 = c3 - q3 * l;
    // the divisions do not saturate: each quotient is at most 1 in magnitude
    assert(iabs(c1) == ss * a1 && iabs(c2) == ss * a2 && iabs(c3) == ss * a3)
        by (nonlinear_arith)
        requires
            a1 == v1 || a1 == -v1,
            a2 == v2 || a2 == -v2,
            a3 == v3 || a3 == -v3,
            0 <= a1 && 0 <= a2 && 0 <= a3,
            c1 == v1 * ss && c2 == v2 * ss && c3 == v3 * ss,
            iabs(c1) == if c1 < 0 {
                -c1
            } else {
                c1
            },
            iabs(c2) == if c2 < 0 {
                -c2
            } else {
                c2
            },
            iabs(c3) == if c3 < 0 {
                -c3
            } else {
                c3
            },
            0 < ss,
    ;
    assert(ss * a1 <= ss * l && ss * a2 <= ss * l && ss * a3 <= ss * l) by (nonlinear_arith)
        requires
            a1 <= l && a2 <= l && a3 <= l,
            0 < ss,
    ;
    vstd::arithmetic::div_mod::lemma_div_is_ordered(ss * a1, ss * l, l);
    vstd::arithmetic::div_mod::lemma_div_is_ordered(ss * a2, ss * l, l);
    vstd::arithmetic::div_mod::lemma_div_is_ordered(ss * a3, ss * l, l);
    vstd::arithmetic::div_mod::lemma_div_multiples_vanish(ss, l);
    assert(ss * l == l * ss) by (nonlinear_arith);
    assert(iabs(q1) <= ss && iabs(q2) <= ss && iabs(q3) <= ss);
    let n = t_normalized(tv(v));
    assert(n.0 == q1 && n.1 == q2 && n.2 == q3);
    let tt = t_norm_sq(n);
    // bound the sum of component magnitudes through the squared length
    assert((a1 + a2 + a3) * (a1 + a2 + a3) <= 3 * q) by (nonlinear_arith)
        requires
            q == a1 * a1 + a2 * a2 + a3 * a3,
    ;
    assert(a1 + a2 + a3 <= 2 * (l + 1)) by (nonlinear_arith)
        requires
            (a1 + a2 + a3) * (a1 + a2 + a3) <= 3 * q,
            q < (l + 1) * (l + 1),
            0 <= a1 + a2 + a3,
            0 <= l,
    ;
    // the squared length of the normalized vector, scaled by l^2
    let e1 = q1 * l;
    let e2 = q2 * l;
    let e3 = q3 * l;
    assert(tt * (l * l) == e1 * e1 + e2 * e2 + e3 * e3) by (nonlinear_arith)
        requires
            tt == q1 * q1 + q2 * q2 + q3 * q3,
            e1 == q1 * l && e2 == q2 * l && e3 == q3 * l,
    ;
    assert(c1 * c1 == (ss * ss) * (v1 * v1)) by (nonlinear_arith)
        requires
            c1 == v1 * ss,
    ;
    assert(c2 * c2 == (ss * ss) * (v2 * v2)) by (nonlinear_arith)
        requires
            c2 == v2 * ss,
    ;
    assert(c3 * c3 == (ss * ss) * (v3 * v3)) by (nonlinear_arith)
        requires
            c3 == v3 * ss,
    ;
    assert((ss * ss) * q == (ss * ss) * (v1 * v1) + (ss * ss) * (v2 * v2) + (ss * ss) * (v3
        * v3)) by (nonlinear_arith)
        requires
            q == v1 * v1 + v2 * v2 + v3 * v3,
    ;
    assert(c1 * c1 + c2 * c2 + c3 * c3 == ss * ss * q);
    // each truncation moves a square by at most 2 |c| (l - 1) + (l - 1)^2
    assert({
        &&& e1 * e1 <= c1 * c1 + 2 * (ss * a1) * (l - 1) + (l - 1) * (l - 1)
        &&& e1 * e1 >= c1 * c1 - 2 * (ss * a1) * (l - 1)
    }) by (nonlinear_arith)
        requires
            e1 == c1 - r1,
            -(l - 1) <= r1 <= l - 1,
            -(ss * a1) <= c1 <= ss * a1,
            0 <= ss * a1,
            1 <= l,
    ;
    assert({
        &&& e2 * e2 <= c2 * c2 + 2 * (ss * a2) * (l - 1) + (l - 1) * (l - 1)
        &&& e2 * e2 >= c2 * c2 - 2 * (ss * a2) * (l - 1)
    }) by (nonlinear_arith)
        requires
            e2 == c2 - r2,
            -(l - 1) <= r2 <= l - 1,
            -(ss * a2) <= c2 <= ss * a2,
            0 <= ss * a2,
            1 <= l,
    ;
    assert({
        &&& e3 * e3 <= c3 * c3 + 2 * (ss * a3) * (l - 1) + (l - 1) * (l - 1)
        &&& e3 * e3 >= c3 * c3 - 2 * (ss * a3) * (l - 1)
    }) by (nonlinear_arith)
        requires
            e3 == c3 - r3,
            -(l - 1) <= r3 <= l - 1,
            -(ss * a3) <= c3 <= ss * a3,
            0 <= ss * a3,
            1 <= l,
    ;
    // summed error term, through the bound on a1 + a2 + a3
    assert(2 * (ss * a1) * (l - 1) + 2 * (ss * a2) * (l - 1) + 2 * (ss * a3) * (l - 1) <= 4 * ss
        * (l * l - 1)) by (nonlinear_arith)
        requires
            a1 + a2 + a3 <= 2 * (l + 1),
            0 <= a1 && 0 <= a2 && 0 <= a3,
            1 <= l,
            0 < ss,
    ;
    // assemble: tt l^2 differs from ss^2 q by the summed truncation error
    assert(tt * (l * l) <= ss * ss * q + 4 * ss * (l * l - 1) + 3 * ((l - 1) * (l - 1)));
    assert(tt * (l * l) >= ss * ss * q - 4 * ss * (l * l - 1));
    // upper bound: tt l^2 <= l^2 (ss^2 + 6 ss + 3)
    assert(ss * ss * q <= ss * ss * ((l + 1) * (l + 1) - 1)) by (nonlinear_arith)
        requires
            q <= (l + 1) * (l + 1) - 1,
            0 < ss,
    ;
    assert(ss * ss * ((l + 1) * (l + 1) - 1) == (ss * ss) * (l * l) + 2 * ((ss * ss) * l))
        by (nonlinear_arith);
    assert(2 * ((ss * ss) * l) <= 4 * (ss * (l * l))) by (nonlinear_arith)
        requires
            ss <= 2 * l,
            0 < ss,
            0 < l,
    ;
    assert(3 * ((l - 1) * (l - 1)) <= 3 * (l * l)) by (nonlinear_arith)
        requires
            1 <= l,
    ;
    assert(4 * ss * (l * l - 1) <= 4 * (ss * (l * l))) by (nonlinear_arith)
        requires
            0 < ss,
    ;
    assert((ss * ss) * (l * l) + 4 * (ss * (l * l)) + 4 * (ss * (l * l)) + 3 * (l * l) == (ss * ss
        + 8 * ss + 3) * (l * l)) by (nonlinear_arith);
    assert(tt * (l * l) <= (ss * ss + 8 * ss + 3) * (l * l));
    assert(tt <= ss * ss + 8 * ss + 3) by (nonlinear_arith)
        requires
            tt * (l * l) <= (ss * ss + 8 * ss + 3) * (l * l),
            1 <= l,
    ;
    // lower bound: tt l^2 >= l^2 (ss^2 - 4 ss)
    assert(ss * ss * q >= (ss * ss) * (l * l)) by (nonlinear_arith)
        requires
            l * l <= q,
            0 < ss,
    ;
    assert((ss * ss) * (l * l) - 4 * (ss * (l * l)) == (ss * ss - 4 * ss) * (l * l))
        by (nonlinear_arith);
    assert(tt * (l * l) >= (ss * ss - 4 * ss) * (l * l));
    assert(tt >= ss * ss - 4 * ss) by (nonlinear_arith)
        requires
            tt * (l * l) >= (ss * ss - 4 * ss) * (l * l),
            1 <= l,
    ;
    // read the bounds off the integer square root of tt
    let s2 = sqrt_floor(tt);
    lemma_sqrt_floor(tt);
    assert(s2 <= ss + 3) by (nonlinear_arith)
        requires
            0 <= s2,
            s2 * s2 <= tt,
            tt <= ss * ss + 8 * ss + 3,
            ss == SCALE as int,
    ;
    assert(s2 >= ss - 3) by (nonlinear_arith)
        requires
            0 <= s2,
            tt < (s2 + 1) * (s2 + 1),
            tt >= ss * ss - 4 * ss,
            ss == SCALE as int,
    ;
    assert(t_size(n) == s2);
}

/// Dividing a vector by a scalar close to the vector's own length yields
/// a vector of near-unit length: if the divisor `rr` is at least one half
/// and within `e` raw units of `sqrt(norm_sq(d))`, the fixed-point length
/// of `d / rr` is 1 within `2 e + 6` units of the last place.
pub proof fn lemma_div_near_length(d: Vec3, rr: int, e: int)
    requires
        d.wf(),
        2147483648 <= rr <= LIM as int,
        0 <= e <= 134217728,
        iabs(sqrt_floor(norm_sq(d)) - rr) <= e,
        norm_sq(d) <= (LIM as int) * (LIM as int),
    ensures
        (SCALE as int) - (2 * e + 6) <= t_size(
            (fx_div(d.e1@, rr), fx_div(d.e2@, rr), fx_div(d.e3@, rr)),
        ) <= (SCALE as int) + (2 * e + 6),
{
    let ss = SCALE as int;
    let q = norm_sq(d);
    let v1 = d.e1@;
    let v2 = d.e2@;
    let v3 = d.e3@;
    let a1 = iabs(v1);
    let a2 = iabs(v2);
    let a3 = iabs(v3);
    assert(a1 * a1 == v1 * v1 && a2 * a2 == v2 * v2 && a3 * a3 == v3 * v3) by (nonlinear_arith)
        requires
            a1 == v1 || a1 == -v1,
            a2 == v2 || a2 == -v2,
            a3 == v3 || a3 == -v3,
    ;
    assert(q >= 0) by (nonlinear_arith)
        requires
            q == a1 * a1 + a2 * a2 + a3 * a3,
            0 <= a1 && 0 <= a2 && 0 <= a3,
    ;
    let ld = sqrt_floor(q);
    lemma_sqrt_floor(q);
    assert(rr - e <= ld <= rr + e);
    assert(a1 <= ld && a2 <= ld && a3 <= ld) by (nonlinear_arith)
        requires
            0 <= a1 && 0 <= a2 && 0 <= a3,
            0 <= ld,
            a1 * a1 + a2 * a2 + a3 * a3 == q,
            q < (ld + 1) * (ld + 1),
    ;
    let c1 = v1 * ss;
    let c2 = v2 * ss;
    let c3 = v3 * ss;
    let q1 = tdiv(c1, rr);
    let q2 = tdiv(c2, rr);
    let q3 = tdiv(c3, rr);
    lemma_tdiv_remainder(c1, rr);
    lemma_tdiv_remainder(c2, rr);
    lemma_tdiv_remainder(c3, rr);
    let r1 = c1 - q1 * rr;
    let r2 = c2 - q2 * rr;
    let r3 = c3 - q3 * rr;
    // the divisions do not saturate: each quotient magnitude stays near 1
    assert(iabs(c1) == ss * a1 && iabs(c2) == ss * a2 && iabs(c3) == ss * a3)
        by (nonlinear_arith)
        requires
            a1 == v1 || a1 == -v1,
            a2 == v2 || a2 == -v2,
            a3 == v3 || a3 == -v3,
            0 <= a1 && 0 <= a2 && 0 <= a3,
            c1 == v1 * ss && c2 == v2 * ss && c3 == v3 * ss,
            iabs(c1) == if c1 < 0 {
                -c1
            } else {
                c1
            },
            iabs(c2) == if c2 < 0 {
                -c2
            } else {
                c2
            },
            iabs(c3) == if c3 < 0 {
                -c3
            } else {
                c3
            },
            0 < ss,
    ;
    assert(ss <= 2 * rr);
    assert(ss * a1 <= (ss + 2 * e) * rr && ss * a2 <= (ss + 2 * e) * rr && ss * a3 <= (ss + 2 * e)
        * rr) by (nonlinear_arith)
        requires
            a1 <= ld && a2 <= ld && a3 <= ld,
            0 <= a1 && 0 <= a2 && 0 <= a3,
            ld <= rr + e,
            ss <= 2 * rr,
            0 <= e,
            0 < rr,
            0 < ss,
    ;
    vstd::arithmetic::div_mod::lemma_div_is_ordered(ss * a1, (ss + 2 * e) * rr, rr);
    vstd::arithmetic::div_mod::lemma_div_is_ordered(ss * a2, (ss + 2 * e) * rr, rr);
    vstd::arithmetic::div_mod::lemma_div_is_ordered(ss * a3, (ss + 2 * e) * rr, rr);
    vstd::arithmetic::div_mod::lemma_div_multiples_vanish(ss + 2 * e, rr);
    assert((ss + 2 * e) * rr == rr * (ss + 2 * e)) by (nonlinear_arith);
    assert(iabs(q1) <= ss + 2 * e && iabs(q2) <= ss + 2 * e && iabs(q3) <= ss + 2 * e);
    let n = (fx_div(v1, rr), fx_div(v2, rr), fx_div(v3, rr));
    assert(n.0 == q1 && n.1 == q2 && n.2 == q3);
    let tt = t_norm_sq(n);
    assert(tt >= 0) by (nonlinear_arith)
        requires
            tt == q1 * q1 + q2 * q2 + q3 * q3,
    ;
    // bound the sum of component magnitudes through the squared length
    assert((a1 + a2 + a3) * (a1 + a2 + a3) <= 3 * q) by (nonlinear_arith)
        requires
            q == a1 * a1 + a2 * a2 + a3 * a3,
    ;
    assert(a1 + a2 + a3 <= 2 * (ld + 1)) by (nonlinear_arith)
        requires
            (a1 + a2 + a3) * (a1 + a2 + a3) <= 3 * q,
            q < (ld + 1) * (ld + 1),
            0 <= a1 + a2 + a3,
            0 <= ld,
    ;
    // the squared length of the quotient vector, scaled by rr^2
    let e1 = q1 * rr;
    let e2 = q2 * rr;
    let e3 = q3 * rr;
    assert(tt * (rr * rr) == e1 * e1 + e2 * e2 + e3 * e3) by (nonlinear_arith)
        requires
            tt == q1 * q1 + q2 * q2 + q3 * q3,
            e1 == q1 * rr && e2 == q2 * rr && e3 == q3 * rr,
    ;
    assert(c1 * c1 == (ss * ss) * (v1 * v1)) by (nonlinear_arith)
        requires
            c1 == v1 * ss,
    ;
    assert(c2 * c2 == (ss * ss) * (v2 * v2)) by (nonlinear_arith)
        requires
            c2 == v2 * ss,
    ;
    assert(c3 * c3 == (ss * ss) * (v3 * v3)) by (nonlinear_arith)
        requires
            c3 == v3 * ss,
    ;
    assert((ss * ss) * q == (ss * ss) * (v1 * v1) + (ss * ss) * (v2 * v2) + (ss * ss) * (v3
        * v3)) by (nonlinear_arith)
        requires
            q == v1 * v1 + v2 * v2 + v3 * v3,
    ;
    assert(c1 * c1 + c2 * c2 + c3 * c3 == ss * ss * q);
    // each truncation moves a square by at most 2 |c| (rr - 1) + (rr - 1)^2
    assert({
        &&& e1 * e1 <= c1 * c1 + 2 * (ss * a1) * (rr - 1) + (rr - 1) * (rr - 1)
        &&& e1 * e1 >= c1 * c1 - 2 * (ss * a1) * (rr - 1)
    }) by (nonlinear_arith)
        requires
            e1 == c1 - r1,
            -(rr - 1) <= r1 <= rr - 1,
            -(ss * a1) <= c1 <= ss * a1,
            0 <= ss * a1,
            1 <= rr,
    ;
    assert({
        &&& e2 * e2 <= c2 * c2 + 2 * (ss * a2) * (rr - 1) + (rr - 1) * (rr - 1)
        &&& e2 * e2 >= c2 * c2 - 2 * (ss * a2) * (rr - 1)
    }) by (nonlinear_arith)
        requires
            e2 == c2 - r2,
            -(rr - 1) <= r2 <= rr - 1,
            -(ss * a2) <= c2 <= ss * a2,
            0 <= ss * a2,
            1 <= rr,
    ;
    assert({
        &&& e3 * e3 <= c3 * c3 + 2 * (ss * a3) * (rr - 1) + (rr - 1) * (rr - 1)
        &&& e3 * e3 >= c3 * c3 - 2 * (ss * a3) * (rr - 1)
    }) by (nonlinear_arith)
        requires
            e3 == c3 - r3,
            -(rr - 1) <= r3 <= rr - 1,
            -(ss * a3) <= c3 <= ss * a3,
            0 <= ss * a3,
            1 <= rr,
    ;
    // summed truncation error
    assert(2 * (ss * a1) * (rr - 1) + 2 * (ss * a2) * (rr - 1) + 2 * (ss * a3) * (rr - 1) <= 4 * ss
        * ((rr - 1) * (ld + 1))) by (nonlinear_arith)
        requires
            a1 + a2 + a3 <= 2 * (ld + 1),
            0 <= a1 && 0 <= a2 && 0 <= a3,
            1 <= rr,
            0 < ss,
    ;
    assert(tt * (rr * rr) <= ss * ss * q + 4 * ss * ((rr - 1) * (ld + 1)) + 3 * ((rr - 1) * (rr
        - 1)));
    assert(tt * (rr * rr) >= ss * ss * q - 4 * ss * ((rr - 1) * (ld + 1)));
    // upper bound: tt rr^2 <= ((ss (ld+1)) + 2 rr)^2, so the size is at
    // most ss + 2 e + 4
    let x = ss * (ld + 1);
    let y = 2 * rr;
    assert(ss * ss * q <= x * x) by (nonlinear_arith)
        requires
            q < (ld + 1) * (ld + 1),
            0 <= q,
            x == ss * (ld + 1),
            0 < ss,
    ;
    assert(4 * ss * ((rr - 1) * (ld + 1)) <= 2 * (x * y)) by (nonlinear_arith)
        requires
            x == ss * (ld + 1),
            y == 2 * rr,
            1 <= rr,
            0 <= ld,
            0 < ss,
    ;
    assert(3 * ((rr - 1) * (rr - 1)) <= y * y) by (nonlinear_arith)
        requires
            y == 2 * rr,
            1 <= rr,
    ;
    let kk = x + y;
    assert(x * x + 2 * (x * y) + y * y == kk * kk) by (nonlinear_arith)
        requires
            kk == x + y,
    ;
    assert(tt * (rr * rr) <= kk * kk);
    let s2 = sqrt_floor(tt);
    lemma_sqrt_floor(tt);
    assert((s2 * rr) * (s2 * rr) <= kk * kk) by (nonlinear_arith)
        requires
            s2 * s2 <= tt,
            tt * (rr * rr) <= kk * kk,
            0 <= s2,
            0 < rr,
    ;
    assert(0 <= kk) by (nonlinear_arith)
        requires
            kk == x + y,
            x == ss * (ld + 1),
            y == 2 * rr,
            0 <= ld,
            0 < ss,
            0 < rr,
    ;
    assert(s2 * rr <= kk) by (nonlinear_arith)
        requires
            (s2 * rr) * (s2 * rr) <= kk * kk,
            0 <= s2 * rr,
            0 <= kk,
    ;
    assert(kk <= (ss + 2 * e + 4) * rr) by (nonlinear_arith)
        requires
            kk == x + y,
            x == ss * (ld + 1),
            y == 2 * rr,
            ld <= rr + e,
            ss <= 2 * rr,
            0 <= e,
            0 < rr,
            0 < ss,
    ;
    assert(s2 <= ss + 2 * e + 4) by (nonlinear_arith)
        requires
            s2 * rr <= (ss + 2 * e + 4) * rr,
            1 <= rr,
            0 <= s2,
    ;
    // lower bound: tt rr^2 >= rr^2 ((ss - 2 e)^2 - 8 ss) >= rr^2 (ss - 2 e - 6)^2
    let w = ss - 2 * e;
    assert(ss * ld >= w * rr && w * rr >= 0) by (nonlinear_arith)
        requires
            ld >= rr - e,
            w == ss - 2 * e,
            ss <= 2 * rr,
            0 <= e,
            0 < rr,
            0 < ss,
            0 < w,
    ;
    assert(ss * ss * q >= (w * rr) * (w * rr)) by (nonlinear_arith)
        requires
            ld * ld <= q,
            ss * ld >= w * rr,
            w * rr >= 0,
            0 <= ld,
            0 < ss,
    ;
    assert(4 * ss * ((rr - 1) * (ld + 1)) <= 8 * (ss * (rr * rr))) by (nonlinear_arith)
        requires
            ld + 1 <= 2 * rr,
            1 <= rr,
            0 <= ld,
            0 < ss,
    ;
    assert((w * rr) * (w * rr) == (rr * rr) * (w * w)) by (nonlinear_arith);
    assert(tt * (rr * rr) >= (rr * rr) * (w * w) - 8 * (ss * (rr * rr)));
    assert((rr * rr) * (w * w) - 8 * (ss * (rr * rr)) >= (rr * rr) * ((w - 6) * (w - 6)))
        by (nonlinear_arith)
        requires
            w == ss - 2 * e,
            ss == SCALE as int,
            0 <= e <= 134217728,
            1 <= rr,
    ;
    assert(tt >= (w - 6) * (w - 6)) by (nonlinear_arith)
        requires
            tt * (rr * rr) >= (rr * rr) * ((w - 6) * (w - 6)),
            1 <= rr,
    ;
    assert(s2 >= w - 6) by (nonlinear_arith)
        requires
            tt < (s2 + 1) * (s2 + 1),
            tt >= (w - 6) * (w - 6),
            0 <= s2,
            w == ss - 2 * e,
            ss == SCALE as int,
            0 <= e <= 134217728,
    ;
    assert(t_size(n) == s2);
}

impl Vec3 {
    /// All components lie within the saturation bounds.
    pub open spec fn wf(self) -> bool {
        &&& self.e1.wf()
        &&& self.e2.wf()
        &&& self.e3.wf()
    }

    pub fn new(e1: Fx, e2: Fx, e3: Fx) -> (r: Vec3)
        ensures
            r == (Vec3 { e1, e2, e3 }),
    {
        Vec3 { e1, e2, e3 }
    }

    pub fn zero() -> (r: Vec3)
        ensures
            r.wf(),
            r.e1@ == 0 && r.e2@ == 0 && r.e3@ == 0,
    {
        Vec3 { e1: Fx::zero(), e2: Fx::zero(), e3: Fx::zero() }
    }

    /// Fixed-point dot product: the component products are summed exactly in
    /// 128 bits and scaled back with a single truncation.
    pub fn dot(a: Vec3, b: Vec3) -> (r: Fx)
        requires
            a.wf(),
            b.wf(),
        ensures
            r.wf(),
            r@ == fx_dot(a, b),
    {
        proof {
            lemma_wide_product_bounded(a.e1@, b.e1@);
            lemma_wide_product_bounded(a.e2@, b.e2@);
            lemma_wide_product_bounded(a.e3@, b.e3@);
        }
        let p1: i128 = (a.e1.raw as i128) * (b.e1.raw as i128);
        let p2: i128 = (a.e2.raw as i128) * (b.e2.raw as i128);
        let p3: i128 = (a.e3.raw as i128) * (b.e3.raw as i128);
        let q: i128 = tdiv_i128(p1 + p2 + p3, SCALE as i128);
        Fx { raw: clamp_i128(q) }
    }

    pub fn scale(self, factor: Fx) -> (r: Vec3)
        requires
            self.wf(),
            factor.wf(),
        ensures
            r.wf(),
            r.e1@ == fx_mul(self.e1@, factor@),
            r.e2@ == fx_mul(self.e2@, factor@),
            r.e3@ == fx_mul(self.e3@, factor@),
    {
        Vec3 { e1: self.e1.mul(factor), e2: self.e2.mul(factor), e3: self.e3.mul(factor) }
    }

    /// Vector length: the exact 128-bit sum of squares, square-rooted.
    pub fn size(self) -> (r: Fx)
        requires
            self.wf(),
        ensures
            r.wf(),
            r@ == fx_size(self),
            r@ >= 0,
            norm_sq(self) < (LIM as int) * (LIM as int) ==> is_sqrt(norm_sq(self), r@),
    {
        proof {
            lemma_wide_product_bounded(self.e1@, self.e1@);
            lemma_wide_product_bounded(self.e2@, self.e2@);
            lemma_wide_product_bounded(self.e3@, self.e3@);
            assert(norm_sq(self) >= 0) by (nonlinear_arith)
                requires
                    norm_sq(self) == self.e1@ * self.e1@ + self.e2@ * self.e2@ + self.e3@
                        * self.e3@,
            ;
        }
        let p1: i128 = (self.e1.raw as i128) * (self.e1.raw as i128);
        let p2: i128 = (self.e2.raw as i128) * (self.e2.raw as i128);
        let p3: i128 = (self.e3.raw as i128) * (self.e3.raw as i128);
        let n: u128 = (p1 + p2 + p3) as u128;
        let s: u64 = crate::fx::isqrt_u128(n);
        proof {
            lemma_sqrt_unique(norm_sq(self), s as int);
            if norm_sq(self) < (LIM as int) * (LIM as int) {
                assert((s as int) <= LIM as int) by (nonlinear_arith)
                    requires
                        0 <= s as int,
                        (s as int) * (s as int) <= norm_sq(self),
                        norm_sq(self) < (LIM as int) * (LIM as int),
                ;
            }
        }
        if s > LIM as u64 {
            Fx { raw: LIM }
        } else {
            Fx { raw: s as i64 }
        }
    }

    /// Scales the vector to unit length by dividing each component by the
    /// length; `lemma_normalized_unit` bounds how far from one the
    /// result's length can be.
    pub fn normalized(self) -> (r: Vec3)
        requires
            self.wf(),
            norm_sq(self) > 0,
        ensures
            r.wf(),
            r.e1@ == fx_div(self.e1@, fx_size(self)),
            r.e2@ == fx_div(self.e2@, fx_size(self)),
            r.e3@ == fx_div(self.e3@, fx_size(self)),
    {
        let len = self.size();
        proof {
            lemma_sqrt_floor(norm_sq(self));
        }
        Vec3 { e1: self.e1.div(len), e2: self.e2.div(len), e3: self.e3.div(len) }
    }

    pub fn x(&self) -> (r: Fx)
        ensures
            r == self.e1,
    {
        self.e1
    }

    pub fn y(&self) -> (r: Fx)
        ensures
            r == self.e2,
    {
        self.e2
    }

    pub fn z(&self) -> (r: Fx)
        ensures
            r == self.e3,
    {
        self.e3
    }

    pub fn xyz(&self) -> (r: (Fx, Fx, Fx))
        ensures
            r == (self.e1, self.e2, self.e3),
    {
        (self.e1, self.e2, self.e3)
    }

    pub fn neg(self) -> (r: Vec3)
        requires
            self.wf(),
        ensures
            r.wf(),
            r.e1@ == -self.e1@,
            r.e2@ == -self.e2@,
            r.e3@ == -self.e3@,
    {
        Vec3 { e1: self.e1.neg(), e2: self.e2.neg(), e3: self.e3.neg() }
    }

    pub fn add(self, other: Vec3) -> (r: Vec3)
        requires
            self.wf(),
            other.wf(),
        ensures
            r.wf(),
            r.e1@ == fx_add(self.e1@, other.e1@),
            r.e2@ == fx_add(self.e2@, other.e2@),
            r.e3@ == fx_add(self.e3@, other.e3@),
    {
        Vec3 { e1: self.e1.add(other.e1), e2: self.e2.add(other.e2), e3: self.e3.add(other.e3) }
    }

    pub fn sub(self, other: Vec3) -> (r: Vec3)
        requires
            self.wf(),
            other.wf(),
        ensures
            r.wf(),
            r.e1@ == fx_sub(self.e1@, other.e1@),
            r.e2@ == fx_sub(self.e2@, other.e2@),
            r.e3@ == fx_sub(self.e3@, other.e3@),
    {
        Vec3 { e1: self.e1.sub(other.e1), e2: self.e2.sub(other.e2), e3: self.e3.sub(other.e3) }
    }

    pub fn add_assign(&mut self, rhs: Vec3)
        requires
            old(self).wf(),
            rhs.wf(),
        ensures
            final (self).wf(),
            final (self).e1@ == fx_add(old(self).e1@, rhs.e1@),
            final (self).e2@ == fx_add(old(self).e2@, rhs.e2@),
            final (self).e3@ == fx_add(old(self).e3@, rhs.e3@),
    {
        *self = self.add(rhs);
    }

    pub fn cross(a: Vec3, b: Vec3) -> (r: Vec3)
        requires
            a.wf(),
            b.wf(),
        ensures
            r.wf(),
            r.e1@ == fx_sub(fx_mul(a.e2@, b.e3@), fx_mul(a.e3@, b.e2@)),
            r.e2@ == fx_sub(fx_mul(a.e3@, b.e1@), fx_mul(a.e1@, b.e3@)),
            r.e3@ == fx_sub(fx_mul(a.e1@, b.e2@), fx_mul(a.e2@, b.e1@)),
    {
        Vec3 {
            e1: a.e2.mul(b.e3).sub(a.e3.mul(b.e2)),
            e2: a.e3.mul(b.e1).sub(a.e1.mul(b.e3)),
            e3: a.e1.mul(b.e2).sub(a.e2.mul(b.e1)),
        }
    }

    /// Whether every component is within `NEAR_EPS` of zero.
    pub fn near_zero(&self) -> (r: bool)
        requires
            self.wf(),
        ensures
            r == is_near_zero(*self),
    {
        let a1 = if self.e1.raw < 0 { -self.e1.raw } else { self.e1.raw };
        let a2 = if self.e2.raw < 0 { -self.e2.raw } else { self.e2.raw };
        let a3 = if self.e3.raw < 0 { -self.e3.raw } else { self.e3.raw };
        a1 <= NEAR_EPS && a2 <= NEAR_EPS && a3 <= NEAR_EPS
    }
}

/// Linear interpolation between two scalars; `lemma_lerp_endpoints` shows
/// it exact at both ends.
pub fn lerp(min: Fx, max: Fx, t: Fx) -> (r: Fx)
    requires
        min.wf(),
        max.wf(),
        t.wf(),
    ensures
        r.wf(),
        r@ == fx_lerp(min@, max@, t@),
{
    min.add(t.mul(max.sub(min)))
}

} // verus!
