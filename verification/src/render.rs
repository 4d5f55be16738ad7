//! Rendering one frame: every pixel of the grid is mapped to its plane
//! sample, run through the escape-time iteration, and colored.
//!
//! The color buffer returned by `render` is pinned down entry by entry:
//! entry `i` is exactly `spec_pixel(viewport, i)`, the palette color of the
//! escape time of the plane sample of row-major pixel `i`.

use vstd::prelude::*;

use crate::color::RGB;
use crate::color::color_of;
use crate::color::spec_color;
use crate::escape::RSQ_LIMIT;
use crate::escape::SAMPLE_LIMIT;
use crate::escape::escape_time;
use crate::escape::lemma_escape_stable;
use crate::escape::spec_escape;
use crate::fixed::FIXED_ONE;
use crate::fixed::MAX_DIM;
use crate::fixed::RADIUS_MAX;
use crate::fixed::lemma_mul_le;
use crate::viewport::Mandelbrot;
use crate::viewport::spec_pixel_offset;

verus! {

/// The plane x coordinate sampled for pixel column `px`.
pub open spec fn spec_coord_x(v: Mandelbrot, px: int) -> int {
    v.low_x + spec_pixel_offset(px, v.width as int, v.width_px as int)
}

/// The plane y coordinate sampled for pixel row `py`.
pub open spec fn spec_coord_y(v: Mandelbrot, py: int) -> int {
    v.low_y + spec_pixel_offset(py, v.height as int, v.height_px as int)
}

/// The squared escape radius, rescaled to fixed-point units.
pub open spec fn spec_rsq(radius: int) -> int {
    (radius * radius) / (FIXED_ONE as int)
}

/// The color of row-major pixel `i` of a frame of viewport `v`.
pub open spec fn spec_pixel(v: Mandelbrot, i: int) -> RGB {
    let px = i % (v.width_px as int);
    let py = i / (v.width_px as int);
    spec_color(
        spec_escape(
            spec_coord_x(v, px),
            spec_coord_y(v, py),
            spec_rsq(v.radius as int),
            0,
            0,
            v.max_iter as nat,
        ),
        v.max_iter as nat,
    )
}

impl Mandelbrot {
    /// The plane sample of device pixel `(px, py)`: the viewport corner plus
    /// the pixel's share of the extent, one exact fixed-point value each.
    pub fn plane_coords(&self, px: u32, py: u32) -> (c: (i64, i64))
        requires
            self.wf(),
            px <= self.width_px,
            py <= self.height_px,
        ensures
            c.0 == spec_coord_x(*self, px as int),
            c.1 == spec_coord_y(*self, py as int),
            -SAMPLE_LIMIT <= c.0 <= SAMPLE_LIMIT,
            -SAMPLE_LIMIT <= c.1 <= SAMPLE_LIMIT,
    {
        proof {
            lemma_mul_le(px as int, self.width as int, MAX_DIM as int, 0x1_0000_0000_0000int);
            lemma_mul_le(py as int, self.height as int, MAX_DIM as int, 0x1_0000_0000_0000int);
            vstd::arithmetic::mul::lemma_mul_inequality(
                px as int,
                self.width_px as int,
                self.width as int,
            );
            vstd::arithmetic::mul::lemma_mul_inequality(
                py as int,
                self.height_px as int,
                self.height as int,
            );
            vstd::arithmetic::div_mod::lemma_div_is_ordered(
                px as int * self.width as int,
                self.width_px as int * self.width as int,
                self.width_px as int,
            );
            vstd::arithmetic::div_mod::lemma_div_is_ordered(
                py as int * self.height as int,
                self.height_px as int * self.height as int,
                self.height_px as int,
            );
            vstd::arithmetic::mul::lemma_mul_is_commutative(
                self.width_px as int,
                self.width as int,
            );
            vstd::arithmetic::mul::lemma_mul_is_commutative(
                self.height_px as int,
                self.height as int,
            );
            vstd::arithmetic::div_mod::lemma_div_multiples_vanish(
                self.width as int,
                self.width_px as int,
            );
            vstd::arithmetic::div_mod::lemma_div_multiples_vanish(
                self.height as int,
                self.height_px as int,
            );
            vstd::arithmetic::mul::lemma_mul_nonnegative(px as int, self.width as int);
            vstd::arithmetic::mul::lemma_mul_nonnegative(py as int, self.height as int);
            vstd::arithmetic::div_mod::lemma_div_pos_is_pos(
                px as int * self.width as int,
                self.width_px as int,
            );
            vstd::arithmetic::div_mod::lemma_div_pos_is_pos(
                py as int * self.height as int,
                self.height_px as int,
            );
        }
        let qx: u64 = (px as u64 * self.width) / (self.width_px as u64);
        let qy: u64 = (py as u64 * self.height) / (self.height_px as u64);
        (self.low_x + qx as i64, self.low_y + qy as i64)
    }

    /// Render one frame: a row-major color buffer with one entry per pixel
    /// of the grid, entry `i` being exactly the palette color of the escape
    /// time of pixel `i`'s plane sample. The call has no side effect and is
    /// repeatable: the buffer is a function of the viewport alone.
    pub fn render(&self) -> (out: Vec<RGB>)
        requires
            self.wf(),
        ensures
            out@.len() == (self.width_px as int) * (self.height_px as int),
            forall|i: int| 0 <= i < out@.len() ==> out@[i] == spec_pixel(*self, i),
    {
        proof {
            lemma_mul_le(self.width_px as int, self.height_px as int, MAX_DIM as int, MAX_DIM as int);
            lemma_mul_le(self.radius as int, self.radius as int, RADIUS_MAX as int, RADIUS_MAX as int);
            assert(RADIUS_MAX as int * RADIUS_MAX as int == 0x400_0000_0000_0000_0000_0000int)
                by (nonlinear_arith);
            vstd::arithmetic::div_mod::lemma_div_is_ordered(
                self.radius as int * self.radius as int,
                0x400_0000_0000_0000_0000_0000int,
                FIXED_ONE as int,
            );
        }
        let len: usize = (self.width_px as usize) * (self.height_px as usize);
        let rsq: u64 = ((self.radius as u128 * self.radius as u128) / (FIXED_ONE as u128)) as u64;
        assert(rsq == spec_rsq(self.radius as int));
        assert(rsq <= RSQ_LIMIT);
        let mut out: Vec<RGB> = Vec::new();
        let mut i: usize = 0;
        while i < len
            invariant
                self.wf(),
                len == (self.width_px as int) * (self.height_px as int),
                len <= 0x100_0000,
                rsq == spec_rsq(self.radius as int),
                rsq <= RSQ_LIMIT,
                i <= len,
                out@.len() == i,
                forall|j: int| 0 <= j < i ==> out@[j] == spec_pixel(*self, j),
            decreases len - i,
        {
            proof {
                vstd::arithmetic::div_mod::lemma_multiply_divide_lt(
                    i as int,
                    self.width_px as int,
                    self.height_px as int,
                );
            }
            let px: u32 = (i % (self.width_px as usize)) as u32;
            let py: u32 = (i / (self.width_px as usize)) as u32;
            let (cx, cy) = self.plane_coords(px, py);
            let it: u32 = escape_time(cx, cy, rsq, self.max_iter);
            let c: RGB = color_of(it, self.max_iter);
            out.push(c);
            i = i + 1;
        }
        out
    }
}

/// Law: the sampled plane coordinate is the affine image of the pixel
/// coordinate, up to one fixed-point truncation step. Scaled back by the
/// grid dimension, the offset of the sample from the viewport corner
/// brackets `px * width` (and likewise for y), which pins the coordinate to
/// the affine map `px -> px * width / width_px + low_x` exactly.
pub proof fn lemma_coord_affine(v: Mandelbrot, px: int, py: int)
    requires
        v.wf(),
        0 <= px <= v.width_px,
        0 <= py <= v.height_px,
    ensures
        v.width_px * (spec_coord_x(v, px) - v.low_x) <= px * v.width < v.width_px * (
        spec_coord_x(v, px) - v.low_x) + v.width_px,
        v.height_px * (spec_coord_y(v, py) - v.low_y) <= py * v.height < v.height_px * (
        spec_coord_y(v, py) - v.low_y) + v.height_px,
{
    vstd::arithmetic::div_mod::lemma_fundamental_div_mod(px * v.width, v.width_px as int);
    vstd::arithmetic::div_mod::lemma_fundamental_div_mod(py * v.height, v.height_px as int);
    vstd::arithmetic::mul::lemma_mul_nonnegative(px, v.width as int);
    vstd::arithmetic::mul::lemma_mul_nonnegative(py, v.height as int);
    vstd::arithmetic::div_mod::lemma_remainder_lower(px * v.width, v.width_px as int);
    vstd::arithmetic::div_mod::lemma_remainder_upper(px * v.width, v.width_px as int);
    vstd::arithmetic::div_mod::lemma_remainder_lower(py * v.height, v.height_px as int);
    vstd::arithmetic::div_mod::lemma_remainder_upper(py * v.height, v.height_px as int);
}

/// Law: rendering is deterministic. Two frames of viewports that agree in
/// every field agree in every pixel: a pixel's color is a function of the
/// viewport fields and the pixel index alone, with no hidden state.
pub proof fn lemma_pixel_deterministic(v1: Mandelbrot, v2: Mandelbrot, i: int)
    requires
        v1 == v2,
    ensures
        spec_pixel(v1, i) == spec_pixel(v2, i),
{
}

/// Law: raising the iteration budget is monotone on colors. A sample that
/// still has not escaped under the larger budget is still painted black,
/// and a sample that had escaped keeps exactly its old escape time, hence
/// its progress `it / max_iter` and the palette formula over it.
pub proof fn lemma_detail_monotonic(cx: int, cy: int, rsq: int, m1: nat, m2: nat)
    requires
        1 <= m1 <= m2,
    ensures
        spec_escape(cx, cy, rsq, 0, 0, m2) == m2 ==> spec_color(
            spec_escape(cx, cy, rsq, 0, 0, m2),
            m2,
        ) == (RGB { r: 0, g: 0, b: 0 }),
        spec_escape(cx, cy, rsq, 0, 0, m1) < m1 ==> spec_escape(cx, cy, rsq, 0, 0, m2)
            == spec_escape(cx, cy, rsq, 0, 0, m1),
{
    if spec_escape(cx, cy, rsq, 0, 0, m1) < m1 {
        lemma_escape_stable(cx, cy, rsq, 0, 0, m1, m2);
    }
}

} // verus!
