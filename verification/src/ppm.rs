//! The PPM raster: renders a grid of colors into the bytes of a plain
//! "P3" image, rows emitted from the top of the image down.

use crate::color::Color;
use crate::fx::{tdiv, tdiv_i128, Fx, SCALE};
use vstd::prelude::*;

verus! {

/// A pixel-grid extent.
#[derive(Clone, Copy, Debug, PartialEq, Eq, Structural)]
pub struct Rect {
    pub width: usize,
    pub height: usize,
}

/// A PPM image of a fixed extent.
#[derive(Clone, Copy, Debug)]
pub struct Ppm {
    pub size: Rect,
}

/// The decimal digits of a nonnegative number, most significant first.
pub open spec fn spec_dec(n: int) -> Seq<u8>
    decreases n,
{
    if n < 10 {
        seq![(48 + n) as u8]
    } else {
        spec_dec(n / 10).push((48 + n % 10) as u8)
    }
}

/// 255.999 scaled by 2^32: the display scale for a channel byte.  The
/// shortfall below 256 makes a full channel of exactly 1.0 land on byte
/// 255 instead of 256.
pub const BYTE_SCALE: i64 = 1099507332808;

/// A channel in `[0, 1]` maps to `floor(255.999 c)` clamped into
/// `[0, 255]`.
pub open spec fn byte_of(c: int) -> int {
    let v = tdiv(c * (BYTE_SCALE as int), (SCALE as int) * (SCALE as int));
    if v < 0 {
        0
    } else if v > 255 {
        255
    } else {
        v
    }
}

/// One pixel's line: the three channel bytes in decimal, space-separated,
/// newline-terminated.
pub open spec fn spec_pixel_line(c: Color) -> Seq<u8> {
    spec_dec(byte_of(c.0.e1@)) + seq![32u8] + spec_dec(byte_of(c.0.e2@)) + seq![32u8] + spec_dec(
        byte_of(c.0.e3@),
    ) + seq![10u8]
}

/// The pixels of row `y` from column `x` rightward; pixel `(x, y)` sits at
/// index `y * width + x` of `colors`.
pub open spec fn spec_row(colors: Seq<Color>, width: int, y: int, x: int) -> Seq<u8>
    decreases width - x,
{
    if x < 0 || x >= width {
        Seq::empty()
    } else {
        spec_pixel_line(colors[y * width + x]) + spec_row(colors, width, y, x + 1)
    }
}

/// The rows from `y` down to row zero.
pub open spec fn spec_rows_down(colors: Seq<Color>, width: int, y: int) -> Seq<u8>
    decreases y + 1,
{
    if y < 0 {
        Seq::empty()
    } else {
        spec_row(colors, width, y, 0) + spec_rows_down(colors, width, y - 1)
    }
}

/// The whole image: the "P3" magic, the extent, the channel maximum, then
/// every pixel line from the top row down.
pub open spec fn spec_ppm(size: Rect, colors: Seq<Color>) -> Seq<u8> {
    seq![80u8, 51u8, 10u8] + spec_dec(size.width as int) + seq![32u8] + spec_dec(
        size.height as int,
    ) + seq![10u8] + seq![50u8, 53u8, 53u8, 10u8] + spec_rows_down(
        colors,
        size.width as int,
        size.height as int - 1,
    )
}

/// Appends the decimal digits of `n`.
fn push_dec(out: &mut Vec<u8>, n: u64)
    ensures
        final (out)@ == old(out)@ + spec_dec(n as int),
    decreases n,
{
    if n < 10 {
        out.push(48 + n as u8);
        assert(out@ =~= old(out)@ + spec_dec(n as int));
    } else {
        push_dec(out, n / 10);
        out.push(48 + (n % 10) as u8);
        assert(out@ =~= old(out)@ + spec_dec(n as int));
    }
}

/// The display byte of one channel.
fn channel_byte(c: Fx) -> (r: u8)
    ensures
        r as int == byte_of(c@),
{
    let v: i128 = tdiv_i128((c.raw as i128) * 1099507332808i128, 18446744073709551616i128);
    if v < 0 {
        0
    } else if v > 255 {
        255
    } else {
        v as u8
    }
}

/// Appends one pixel's line.
fn push_pixel(out: &mut Vec<u8>, c: Color)
    ensures
        final (out)@ == old(out)@ + spec_pixel_line(c),
{
    push_dec(out, channel_byte(c.0.e1) as u64);
    out.push(32);
    push_dec(out, channel_byte(c.0.e2) as u64);
    out.push(32);
    push_dec(out, channel_byte(c.0.e3) as u64);
    out.push(10);
    assert(out@ =~= old(out)@ + spec_pixel_line(c));
}

impl Ppm {
    pub fn new(size: Rect) -> (r: Ppm)
        ensures
            r.size == size,
    {
        Ppm { size }
    }

    /// Renders the image bytes for a grid of finished pixel colors, where
    /// `colors[y * width + x]` is the pixel at column `x` of row `y` and
    /// row zero is the bottom of the image.
    pub fn render(&self, colors: &Vec<Color>) -> (r: Vec<u8>)
        requires
            colors@.len() == self.size.width * self.size.height,
        ensures
            r@ == spec_ppm(self.size, colors@),
    {
        let w = self.size.width;
        let h = self.size.height;
        let mut out: Vec<u8> = Vec::new();
        out.push(80);
        out.push(51);
        out.push(10);
        push_dec(&mut out, w as u64);
        out.push(32);
        push_dec(&mut out, h as u64);
        out.push(10);
        out.push(50);
        out.push(53);
        out.push(53);
        out.push(10);
        assert(out@ + spec_rows_down(colors@, w as int, h as int - 1) =~= spec_ppm(
            self.size,
            colors@,
        ));
        let mut y = h;
        while y > 0
            invariant
                y <= h,
                w == self.size.width,
                h == self.size.height,
                colors@.len() == w * h,
                out@ + spec_rows_down(colors@, w as int, y as int - 1) == spec_ppm(
                    self.size,
                    colors@,
                ),
            decreases y,
        {
            let row_y = y - 1;
            proof {
                assert((out@ + spec_row(colors@, w as int, row_y as int, 0)) + spec_rows_down(
                    colors@,
                    w as int,
                    row_y as int - 1,
                ) =~= out@ + spec_rows_down(colors@, w as int, row_y as int));
            }
            let mut x: usize = 0;
            while x < w
                invariant
                    x <= w,
                    row_y < h,
                    w == self.size.width,
                    h == self.size.height,
                    colors@.len() == w * h,
                    out@ + spec_row(colors@, w as int, row_y as int, x as int) + spec_rows_down(
                        colors@,
                        w as int,
                        row_y as int - 1,
                    ) == spec_ppm(self.size, colors@),
                decreases w - x,
            {
                let total = colors.len();
                proof {
                    assert((row_y as int) * (w as int) + (x as int) < (w as int) * (h as int))
                        by (nonlinear_arith)
                        requires
                            (row_y as int) < (h as int),
                            (x as int) < (w as int),
                            0 <= row_y as int,
                            0 <= x as int,
                    ;
                    assert((row_y as int) * (w as int) + (x as int) < total as int);
                }
                let idx: usize = row_y * w + x;
                let ghost prev = out@;
                push_pixel(&mut out, colors[idx]);
                proof {
                    assert(out@ + spec_row(colors@, w as int, row_y as int, x as int + 1)
                        + spec_rows_down(colors@, w as int, row_y as int - 1) =~= prev + spec_row(
                        colors@,
                        w as int,
                        row_y as int,
                        x as int,
                    ) + spec_rows_down(colors@, w as int, row_y as int - 1));
                }
                x = x + 1;
            }
            proof {
                assert(out@ + spec_rows_down(colors@, w as int, row_y as int - 1) =~= out@
                    + spec_row(colors@, w as int, row_y as int, w as int) + spec_rows_down(
                    colors@,
                    w as int,
                    row_y as int - 1,
                ));
            }
            y = row_y;
        }
        proof {
            assert(out@ =~= out@ + spec_rows_down(colors@, w as int, -1));
        }
        out
    }
}

} // verus!
