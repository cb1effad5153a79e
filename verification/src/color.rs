//! RGB colors in linear space, stored as a fixed-point vector.

use crate::fx::{fx_add, fx_div, fx_mul, fx_sqrt, fx_sub, tdiv, tdiv_i128, Fx, SCALE};
use crate::v3::Vec3;
use vstd::prelude::*;

verus! {

/// Saturation of a raw channel value into the displayable range `[0, 1]`.
pub open spec fn clamp01(x: int) -> int {
    if x < 0 {
        0
    } else if x > SCALE as int {
        SCALE as int
    } else {
        x
    }
}

#[derive(Clone, Copy, Debug, PartialEq, Eq, Structural)]
pub struct Color(pub Vec3);

impl Color {
    pub open spec fn wf(self) -> bool {
        self.0.wf()
    }

    /// All channels lie in `[0, 1]`.
    pub open spec fn in_unit(self) -> bool {
        &&& 0 <= self.0.e1@ <= SCALE as int
        &&& 0 <= self.0.e2@ <= SCALE as int
        &&& 0 <= self.0.e3@ <= SCALE as int
    }

    pub fn rgb(r: Fx, g: Fx, b: Fx) -> (c: Color)
        ensures
            c == (Color(Vec3 { e1: r, e2: g, e3: b })),
    {
        Color(Vec3 { e1: r, e2: g, e3: b })
    }

    pub fn scale(self, amount: Fx) -> (c: Color)
        requires
            self.wf(),
            amount.wf(),
        ensures
            c.wf(),
            c.0.e1@ == fx_mul(self.0.e1@, amount@),
            c.0.e2@ == fx_mul(self.0.e2@, amount@),
            c.0.e3@ == fx_mul(self.0.e3@, amount@),
    {
        Color(self.0.scale(amount))
    }

    /// Maps a normal's components from `[-1, 1]` into color channels in
    /// `[0, 1]`.
    pub fn from_normal(n: Vec3) -> (c: Color)
        requires
            n.wf(),
        ensures
            c.wf(),
            c.0.e1@ == fx_mul(fx_add(n.e1@, SCALE as int), (SCALE as int) / 2),
            c.0.e2@ == fx_mul(fx_add(n.e2@, SCALE as int), (SCALE as int) / 2),
            c.0.e3@ == fx_mul(fx_add(n.e3@, SCALE as int), (SCALE as int) / 2),
    {
        let one = Fx::one();
        let half = Fx { raw: 2147483648 };
        let moved = n.add(Vec3 { e1: one, e2: one, e3: one });
        Color(moved.scale(half))
    }

    pub fn r(&self) -> (r: Fx)
        ensures
            r == self.0.e1,
    {
        self.0.e1
    }

    pub fn g(&self) -> (r: Fx)
        ensures
            r == self.0.e2,
    {
        self.0.e2
    }

    pub fn b(&self) -> (r: Fx)
        ensures
            r == self.0.e3,
    {
        self.0.e3
    }

    pub fn add(self, rhs: Color) -> (c: Color)
        requires
            self.wf(),
            rhs.wf(),
        ensures
            c.wf(),
            c.0.e1@ == fx_add(self.0.e1@, rhs.0.e1@),
            c.0.e2@ == fx_add(self.0.e2@, rhs.0.e2@),
            c.0.e3@ == fx_add(self.0.e3@, rhs.0.e3@),
    {
        Color(self.0.add(rhs.0))
    }

    /// Element-wise product on RGB channels, the compositing rule for
    /// attenuation along a bounce history.
    pub fn mul(self, rhs: Color) -> (c: Color)
        requires
            self.wf(),
            rhs.wf(),
        ensures
            c.wf(),
            c.0.e1@ == fx_mul(self.0.e1@, rhs.0.e1@),
            c.0.e2@ == fx_mul(self.0.e2@, rhs.0.e2@),
            c.0.e3@ == fx_mul(self.0.e3@, rhs.0.e3@),
    {
        Color(
            Vec3 {
                e1: self.0.e1.mul(rhs.0.e1),
                e2: self.0.e2.mul(rhs.0.e2),
                e3: self.0.e3.mul(rhs.0.e3),
            },
        )
    }

    pub fn add_assign(&mut self, rhs: Color)
        requires
            old(self).wf(),
            rhs.wf(),
        ensures
            final (self).wf(),
            final (self).0.e1@ == fx_add(old(self).0.e1@, rhs.0.e1@),
            final (self).0.e2@ == fx_add(old(self).0.e2@, rhs.0.e2@),
            final (self).0.e3@ == fx_add(old(self).0.e3@, rhs.0.e3@),
    {
        *self = self.add(rhs);
    }

    /// Averages an accumulated color over the per-pixel sample count and
    /// clamps each channel into `[0, 1]`.
    pub fn sampled(self, sample_per_pixel: usize) -> (c: Color)
        requires
            self.wf(),
            sample_per_pixel > 0,
        ensures
            c.wf(),
            c.in_unit(),
            c.0.e1@ == clamp01(tdiv(self.0.e1@, sample_per_pixel as int)),
            c.0.e2@ == clamp01(tdiv(self.0.e2@, sample_per_pixel as int)),
            c.0.e3@ == clamp01(tdiv(self.0.e3@, sample_per_pixel as int)),
    {
        let n: i128 = sample_per_pixel as i128;
        let d1: i128 = tdiv_i128(self.0.e1.raw as i128, n);
        let d2: i128 = tdiv_i128(self.0.e2.raw as i128, n);
        let d3: i128 = tdiv_i128(self.0.e3.raw as i128, n);
        Color(
            Vec3 {
                e1: clamp01_i128(d1),
                e2: clamp01_i128(d2),
                e3: clamp01_i128(d3),
            },
        )
    }

    /// Square-root display transform for channels in `[0, 1]`.
    pub fn gamma_corrected(self) -> (c: Color)
        requires
            self.wf(),
            0 <= self.0.e1@,
            0 <= self.0.e2@,
            0 <= self.0.e3@,
        ensures
            c.wf(),
            c.0.e1@ == fx_sqrt(self.0.e1@),
            c.0.e2@ == fx_sqrt(self.0.e2@),
            c.0.e3@ == fx_sqrt(self.0.e3@),
    {
        Color(
            Vec3 {
                e1: self.0.e1.sqrt(),
                e2: self.0.e2.sqrt(),
                e3: self.0.e3.sqrt(),
            },
        )
    }

    /// Inverse of the display transform: squares each channel.
    pub fn into_gamma(self) -> (c: Color)
        requires
            self.wf(),
        ensures
            c.wf(),
            c.0.e1@ == fx_mul(self.0.e1@, self.0.e1@),
            c.0.e2@ == fx_mul(self.0.e2@, self.0.e2@),
            c.0.e3@ == fx_mul(self.0.e3@, self.0.e3@),
    {
        Color(
            Vec3 {
                e1: self.0.e1.mul(self.0.e1),
                e2: self.0.e2.mul(self.0.e2),
                e3: self.0.e3.mul(self.0.e3),
            },
        )
    }

    /// Reinhard tone mapping `c / (c + 1)` on each nonnegative channel.
    pub fn reinhard(self) -> (c: Color)
        requires
            self.wf(),
            0 <= self.0.e1@,
            0 <= self.0.e2@,
            0 <= self.0.e3@,
        ensures
            c.wf(),
            c.0.e1@ == fx_div(self.0.e1@, fx_add(self.0.e1@, SCALE as int)),
            c.0.e2@ == fx_div(self.0.e2@, fx_add(self.0.e2@, SCALE as int)),
            c.0.e3@ == fx_div(self.0.e3@, fx_add(self.0.e3@, SCALE as int)),
    {
        let one = Fx::one();
        Color(
            Vec3 {
                e1: self.0.e1.div(self.0.e1.add(one)),
                e2: self.0.e2.div(self.0.e2.add(one)),
                e3: self.0.e3.div(self.0.e3.add(one)),
            },
        )
    }
}

/// Saturates a raw channel into `[0, SCALE]`.
fn clamp01_i128(x: i128) -> (r: Fx)
    ensures
        r.wf(),
        r@ == clamp01(x as int),
{
    if x < 0 {
        Fx { raw: 0 }
    } else if x > SCALE as i128 {
        Fx { raw: SCALE }
    } else {
        Fx { raw: x as i64 }
    }
}

} // verus!
