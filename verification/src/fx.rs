//! Saturating binary fixed-point scalar.
//!
//! A real number is represented by an `i64` holding its value scaled by
//! `SCALE` (2^32), kept within `[-LIM, LIM]`.  Every operation saturates at
//! those bounds instead of wrapping, computes through 128-bit intermediates,
//! and is specified exactly by the `fx_*` spec functions, so callers reason
//! about the true result of each step, truncation and saturation included.

use vstd::arithmetic::mul::lemma_mul_upper_bound;
use vstd::prelude::*;

verus! {

/// One unit, i.e. the raw representation of the real number 1 (2^32).
pub const SCALE: i64 = 4294967296;

/// Saturation bound on raw representations (2^61).
pub const LIM: i64 = 2305843009213693952;

/// Absolute value on mathematical integers.
pub open spec fn iabs(x: int) -> int {
    if x < 0 {
        -x
    } else {
        x
    }
}

/// Saturation of a raw value into the representable range.
pub open spec fn clamp_raw(x: int) -> int {
    if x < -(LIM as int) {
        -(LIM as int)
    } else if x > LIM as int {
        LIM as int
    } else {
        x
    }
}

/// Division truncated toward zero, the rounding used by every executable
/// division in this module.
pub open spec fn tdiv(a: int, b: int) -> int {
    if (a < 0) == (b < 0) {
        iabs(a) / iabs(b)
    } else {
        -(iabs(a) / iabs(b))
    }
}

/// Raw result of fixed-point addition.
pub open spec fn fx_add(a: int, b: int) -> int {
    clamp_raw(a + b)
}

/// Raw result of fixed-point subtraction.
pub open spec fn fx_sub(a: int, b: int) -> int {
    clamp_raw(a - b)
}

/// Raw result of fixed-point multiplication.
pub open spec fn fx_mul(a: int, b: int) -> int {
    clamp_raw(tdiv(a * b, SCALE as int))
}

/// Raw result of fixed-point division.
pub open spec fn fx_div(a: int, b: int) -> int {
    clamp_raw(tdiv(a * (SCALE as int), b))
}

/// `r` is the integer square root of `n`.
pub open spec fn is_sqrt(n: int, r: int) -> bool {
    &&& 0 <= r
    &&& r * r <= n
    &&& n < (r + 1) * (r + 1)
}

/// The integer square root, as a spec-level function.
pub open spec fn sqrt_floor(n: int) -> int {
    choose|r: int| is_sqrt(n, r)
}

/// Raw result of fixed-point square root.
pub open spec fn fx_sqrt(a: int) -> int {
    sqrt_floor(a * (SCALE as int))
}

/// Every nonnegative integer has an integer square root; returns a witness.
pub proof fn lemma_sqrt_witness(n: int) -> (r: int)
    requires
        n >= 0,
    ensures
        is_sqrt(n, r),
    decreases n,
{
    if n == 0 {
        assert(is_sqrt(0, 0)) by (nonlinear_arith);
        0
    } else {
        let p = lemma_sqrt_witness(n - 1);
        if n < (p + 1) * (p + 1) {
            assert(is_sqrt(n, p));
            p
        } else {
            assert(n == (p + 1) * (p + 1));
            let r = p + 1;
            assert(is_sqrt(n, r)) by (nonlinear_arith)
                requires
                    p >= 0,
                    r == p + 1,
                    n == (p + 1) * (p + 1),
            ;
            r
        }
    }
}

/// `sqrt_floor` satisfies its defining property.
pub proof fn lemma_sqrt_floor(n: int)
    requires
        n >= 0,
    ensures
        is_sqrt(n, sqrt_floor(n)),
{
    let w = lemma_sqrt_witness(n);
    assert(is_sqrt(n, w));
}

/// The integer square root is unique.
pub proof fn lemma_sqrt_unique(n: int, r: int)
    requires
        is_sqrt(n, r),
    ensures
        r == sqrt_floor(n),
{
    lemma_sqrt_floor(n);
    let s = sqrt_floor(n);
    assert(r == s) by (nonlinear_arith)
        requires
            0 <= r,
            0 <= s,
            r * r <= n,
            n < (r + 1) * (r + 1),
            s * s <= n,
            n < (s + 1) * (s + 1),
    ;
}

/// Truncating division leaves a remainder smaller than the divisor in
/// magnitude, with the sign of the dividend.
pub proof fn lemma_tdiv_remainder(a: int, b: int)
    requires
        b > 0,
    ensures
        a == tdiv(a, b) * b + (a - tdiv(a, b) * b),
        -(b - 1) <= a - tdiv(a, b) * b <= b - 1,
{
    if a >= 0 {
        vstd::arithmetic::div_mod::lemma_fundamental_div_mod(a, b);
        assert(tdiv(a, b) == a / b);
        assert(a - (a / b) * b == a % b) by (nonlinear_arith)
            requires
                a == b * (a / b) + a % b,
        ;
    } else {
        let m = -a;
        vstd::arithmetic::div_mod::lemma_fundamental_div_mod(m, b);
        assert(tdiv(a, b) == -(m / b));
        assert(a - (-(m / b)) * b == -(m % b)) by (nonlinear_arith)
            requires
                m == b * (m / b) + m % b,
                a == -m,
        ;
    }
}

/// Truncating division by a positive divisor is monotone in the dividend.
pub proof fn lemma_tdiv_monotone(x: int, y: int, d: int)
    requires
        x <= y,
        d > 0,
    ensures
        tdiv(x, d) <= tdiv(y, d),
{
    if x >= 0 {
        vstd::arithmetic::div_mod::lemma_div_is_ordered(x, y, d);
    } else if y < 0 {
        vstd::arithmetic::div_mod::lemma_div_is_ordered(-y, -x, d);
    } else {
        vstd::arithmetic::div_mod::lemma_div_pos_is_pos(-x, d);
        vstd::arithmetic::div_mod::lemma_div_pos_is_pos(y, d);
    }
}

/// The fixed-point scalar.
#[derive(Clone, Copy, Debug, PartialEq, Eq, Structural)]
pub struct Fx {
    pub raw: i64,
}

impl View for Fx {
    type V = int;

    open spec fn view(&self) -> int {
        self.raw as int
    }
}

impl Fx {
    /// The raw value lies within the saturation bounds.
    pub open spec fn wf(self) -> bool {
        -(LIM as int) <= self@ <= LIM as int
    }

    /// The scalar 0.
    pub fn zero() -> (r: Fx)
        ensures
            r.wf(),
            r@ == 0,
    {
        Fx { raw: 0 }
    }

    /// The scalar 1.
    pub fn one() -> (r: Fx)
        ensures
            r.wf(),
            r@ == SCALE as int,
    {
        Fx { raw: SCALE }
    }

    /// Builds a scalar from a raw (pre-scaled) representation, saturating.
    pub fn from_raw(raw: i64) -> (r: Fx)
        ensures
            r.wf(),
            r@ == clamp_raw(raw as int),
    {
        if raw < -LIM {
            Fx { raw: -LIM }
        } else if raw > LIM {
            Fx { raw: LIM }
        } else {
            Fx { raw }
        }
    }

    /// Builds the scalar of integral value `i`, saturating.
    pub fn from_int(i: i32) -> (r: Fx)
        ensures
            r.wf(),
            r@ == clamp_raw(i * (SCALE as int)),
    {
        let wide: i128 = (i as i128) * 4294967296i128;
        Fx { raw: clamp_i128(wide) }
    }

    pub fn add(self, other: Fx) -> (r: Fx)
        requires
            self.wf(),
            other.wf(),
        ensures
            r.wf(),
            r@ == fx_add(self@, other@),
    {
        let wide: i128 = (self.raw as i128) + (other.raw as i128);
        Fx { raw: clamp_i128(wide) }
    }

    pub fn sub(self, other: Fx) -> (r: Fx)
        requires
            self.wf(),
            other.wf(),
        ensures
            r.wf(),
            r@ == fx_sub(self@, other@),
    {
        let wide: i128 = (self.raw as i128) - (other.raw as i128);
        Fx { raw: clamp_i128(wide) }
    }

    pub fn neg(self) -> (r: Fx)
        requires
            self.wf(),
        ensures
            r.wf(),
            r@ == -self@,
    {
        Fx { raw: -self.raw }
    }

    pub fn mul(self, other: Fx) -> (r: Fx)
        requires
            self.wf(),
            other.wf(),
        ensures
            r.wf(),
            r@ == fx_mul(self@, other@),
    {
        proof {
            lemma_wide_product_bounded(self@, other@);
        }
        let wide: i128 = (self.raw as i128) * (other.raw as i128);
        let q: i128 = tdiv_i128(wide, SCALE as i128);
        Fx { raw: clamp_i128(q) }
    }

    pub fn div(self, other: Fx) -> (r: Fx)
        requires
            self.wf(),
            other.wf(),
            other@ != 0,
        ensures
            r.wf(),
            r@ == fx_div(self@, other@),
    {
        let wide: i128 = (self.raw as i128) * (SCALE as i128);
        let q: i128 = tdiv_i128(wide, other.raw as i128);
        Fx { raw: clamp_i128(q) }
    }

    /// Square root of a nonnegative scalar, rounded down to the resolution
    /// of the representation.
    pub fn sqrt(self) -> (r: Fx)
        requires
            self.wf(),
            self@ >= 0,
        ensures
            r.wf(),
            r@ == fx_sqrt(self@),
            is_sqrt(self@ * (SCALE as int), r@),
            r@ >= 0,
    {
        let n: u128 = (self.raw as u128) * (SCALE as u128);
        proof {
            lemma_mul_upper_bound(self@, LIM as int, SCALE as int, SCALE as int);
        }
        let s: u64 = isqrt_u128(n);
        proof {
            assert((s as int) * (s as int) <= n as int);
            assert(n as int <= (LIM as int) * (SCALE as int));
            assert(s as int <= LIM as int) by (nonlinear_arith)
                requires
                    0 <= s as int,
                    (s as int) * (s as int) <= (LIM as int) * (SCALE as int),
            ;
            lemma_sqrt_unique(self@ * (SCALE as int), s as int);
        }
        Fx { raw: s as i64 }
    }

    /// The smaller of two scalars.
    pub fn min(self, other: Fx) -> (r: Fx)
        ensures
            r@ == if self@ <= other@ {
                self@
            } else {
                other@
            },
    {
        if self.raw <= other.raw {
            self
        } else {
            other
        }
    }

    /// Clamps the scalar into `[lo, hi]`.
    pub fn clamp(self, lo: Fx, hi: Fx) -> (r: Fx)
        requires
            lo@ <= hi@,
        ensures
            r@ == if self@ < lo@ {
                lo@
            } else if self@ > hi@ {
                hi@
            } else {
                self@
            },
    {
        if self.raw < lo.raw {
            lo
        } else if self.raw > hi.raw {
            hi
        } else {
            self
        }
    }
}

/// Saturates a 128-bit raw value into the representable range.
pub(crate) fn clamp_i128(x: i128) -> (r: i64)
    ensures
        r as int == clamp_raw(x as int),
        -(LIM as int) <= r as int <= LIM as int,
{
    if x < -(LIM as i128) {
        -LIM
    } else if x > LIM as i128 {
        LIM
    } else {
        x as i64
    }
}

/// Division of 128-bit integers truncated toward zero, matching `tdiv`.
pub(crate) fn tdiv_i128(a: i128, b: i128) -> (r: i128)
    requires
        b != 0,
        a > i128::MIN,
        b > i128::MIN,
    ensures
        r as int == tdiv(a as int, b as int),
{
    let an: u128 = if a >= 0 {
        a as u128
    } else {
        (-a) as u128
    };
    let bn: u128 = if b >= 0 {
        b as u128
    } else {
        (-b) as u128
    };
    let q: u128 = an / bn;
    assert(q <= an) by (nonlinear_arith)
        requires
            bn > 0,
            q == an / bn,
    ;
    if (a >= 0) == (b >= 0) {
        q as i128
    } else {
        -(q as i128)
    }
}

/// The product of two bounded raw values fits in 128 bits.
pub(crate) proof fn lemma_wide_product_bounded(a: int, b: int)
    requires
        -(LIM as int) <= a <= LIM as int,
        -(LIM as int) <= b <= LIM as int,
    ensures
        -(LIM as int) * (LIM as int) <= a * b <= (LIM as int) * (LIM as int),
{
    assert(-(LIM as int) * (LIM as int) <= a * b <= (LIM as int) * (LIM as int))
        by (nonlinear_arith)
        requires
            -(LIM as int) <= a <= LIM as int,
            -(LIM as int) <= b <= LIM as int,
    ;
}

/// Integer square root by binary search.
pub(crate) fn isqrt_u128(n: u128) -> (r: u64)
    requires
        n < 0x40000000000000000000000000000000u128,
    ensures
        is_sqrt(n as int, r as int),
{
    let mut lo: u128 = 0;
    let mut hi: u128 = 0x8000000000000000;
    assert(hi * hi > n);
    while hi - lo > 1
        invariant
            lo < hi,
            hi <= 0x8000000000000000,
            lo * lo <= n as int,
            (n as int) < hi * hi,
        decreases hi - lo,
    {
        let mid: u128 = lo + (hi - lo) / 2;
        proof {
            lemma_mul_upper_bound(mid as int, 0x8000000000000000, mid as int, 0x8000000000000000);
        }
        if mid * mid <= n {
            lo = mid;
        } else {
            hi = mid;
        }
    }
    assert(hi == lo + 1);
    lo as u64
}

} // verus!
