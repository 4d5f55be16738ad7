//! The viewport over the complex plane and its transition rules.
//!
//! `Mandelbrot` holds the rectangle of the plane being viewed (bottom-left
//! corner and extents, in fixed-point plane units), the per-pixel iteration
//! budget and the escape radius, together with the fixed pixel grid size.
//! Every transition is a total function: where a step would leave the
//! representable range it clamps, so the invariant `wf` (positive extents and
//! radius, budget at least one) holds at all times.

use vstd::prelude::*;

use crate::fixed::COORD_LIMIT;
use crate::fixed::EXTENT_MAX;
use crate::fixed::EXTENT_MIN;
use crate::fixed::FIXED_ONE;
use crate::fixed::MAX_DIM;
use crate::fixed::MAX_ITER_MAX;
use crate::fixed::MAX_ITER_MIN;
use crate::fixed::RADIUS_MAX;
use crate::fixed::RADIUS_MIN;
use crate::fixed::clamp_coord;
use crate::fixed::fx_clamp_coord;

verus! {

/// A viewport over the complex plane plus the escape-time parameters.
///
/// `low_x`, `low_y` are the plane coordinates of the bottom-left sample and
/// `width`, `height` the extents of the viewed rectangle, all in fixed-point
/// plane units (`FIXED_ONE` per unit). `max_iter` is the iteration budget per
/// pixel and `radius` the escape threshold. `width_px`, `height_px` are the
/// fixed pixel grid dimensions, row-major index `i = y * width_px + x`.
#[derive(Clone, Copy, PartialEq, Eq, Structural, Debug)]
pub struct Mandelbrot {
    pub width_px: u32,
    pub height_px: u32,
    pub low_x: i64,
    pub low_y: i64,
    pub width: u64,
    pub height: u64,
    pub max_iter: u32,
    pub radius: u64,
}

/// Quarter of an extent, kept at least one fixed-point step.
pub open spec fn spec_quarter(extent: int) -> int {
    if extent / 4 >= EXTENT_MIN {
        extent / 4
    } else {
        EXTENT_MIN as int
    }
}

/// The plane offset of device pixel `p` from the viewport corner: the extent
/// scaled by `p / dim`, truncated to a fixed-point step.
pub open spec fn spec_pixel_offset(p: int, extent: int, dim: int) -> int {
    (p * extent) / dim
}

/// Zoom-in at device pixel `(px, py)`: the clicked plane point becomes the
/// center of a rectangle a quarter the linear size.
pub open spec fn spec_zoom_in(v: Mandelbrot, px: u32, py: u32) -> Mandelbrot {
    let new_w = spec_quarter(v.width as int);
    let new_h = spec_quarter(v.height as int);
    Mandelbrot {
        low_x: fx_clamp_coord(
            v.low_x + spec_pixel_offset(px as int, v.width as int, v.width_px as int) - new_w / 2,
        ) as i64,
        low_y: fx_clamp_coord(
            v.low_y + spec_pixel_offset(py as int, v.height as int, v.height_px as int) - new_h
                / 2,
        ) as i64,
        width: new_w as u64,
        height: new_h as u64,
        ..v
    }
}

/// Four times an extent, capped at the representable maximum.
pub open spec fn spec_quadruple(extent: int) -> int {
    if extent * 4 <= EXTENT_MAX {
        extent * 4
    } else {
        EXTENT_MAX as int
    }
}

/// Zoom-out at device pixel `(px, py)`: the algebraic inverse of zoom-in at
/// the same pixel, up to the clamps.
pub open spec fn spec_zoom_out(v: Mandelbrot, px: u32, py: u32) -> Mandelbrot {
    let new_w = spec_quadruple(v.width as int);
    let new_h = spec_quadruple(v.height as int);
    Mandelbrot {
        low_x: fx_clamp_coord(
            v.low_x + (v.width as int) / 2 - spec_pixel_offset(
                px as int,
                new_w,
                v.width_px as int,
            ),
        ) as i64,
        low_y: fx_clamp_coord(
            v.low_y + (v.height as int) / 2 - spec_pixel_offset(
                py as int,
                new_h,
                v.height_px as int,
            ),
        ) as i64,
        width: new_w as u64,
        height: new_h as u64,
        ..v
    }
}

/// Double the iteration budget, capped at the representable maximum.
pub open spec fn spec_increase_detail(v: Mandelbrot) -> Mandelbrot {
    Mandelbrot {
        max_iter: if v.max_iter <= MAX_ITER_MAX / 2 {
            (v.max_iter * 2) as u32
        } else {
            MAX_ITER_MAX
        },
        ..v
    }
}

/// Halve the iteration budget (floor division), clamped to at least one.
pub open spec fn spec_decrease_detail(v: Mandelbrot) -> Mandelbrot {
    Mandelbrot {
        max_iter: if v.max_iter / 2 >= MAX_ITER_MIN {
            (v.max_iter / 2) as u32
        } else {
            MAX_ITER_MIN
        },
        ..v
    }
}

/// Double the escape radius, capped at the representable maximum.
pub open spec fn spec_increase_radius(v: Mandelbrot) -> Mandelbrot {
    Mandelbrot {
        radius: if v.radius <= RADIUS_MAX / 2 {
            (v.radius * 2) as u64
        } else {
            RADIUS_MAX
        },
        ..v
    }
}

/// Halve the escape radius, clamped to a small positive minimum.
pub open spec fn spec_decrease_radius(v: Mandelbrot) -> Mandelbrot {
    Mandelbrot {
        radius: if v.radius / 2 >= RADIUS_MIN {
            (v.radius / 2) as u64
        } else {
            RADIUS_MIN
        },
        ..v
    }
}

/// The default full view over `[-2, 2] x [-2, 2]` with the default iteration
/// budget and escape radius.
pub open spec fn spec_default_view(width_px: u32, height_px: u32) -> Mandelbrot {
    Mandelbrot {
        width_px,
        height_px,
        low_x: (-2 * FIXED_ONE) as i64,
        low_y: (-2 * FIXED_ONE) as i64,
        width: (4 * FIXED_ONE) as u64,
        height: (4 * FIXED_ONE) as u64,
        max_iter: 128,
        radius: (128 * FIXED_ONE) as u64,
    }
}

impl Mandelbrot {
    /// The viewport invariant: extents and radius strictly positive, budget
    /// at least one, and everything within the representable plane square.
    pub open spec fn wf(self) -> bool {
        &&& 1 <= self.width_px <= MAX_DIM
        &&& 1 <= self.height_px <= MAX_DIM
        &&& -COORD_LIMIT <= self.low_x <= COORD_LIMIT
        &&& -COORD_LIMIT <= self.low_y <= COORD_LIMIT
        &&& EXTENT_MIN <= self.width <= EXTENT_MAX
        &&& EXTENT_MIN <= self.height <= EXTENT_MAX
        &&& MAX_ITER_MIN <= self.max_iter <= MAX_ITER_MAX
        &&& RADIUS_MIN <= self.radius <= RADIUS_MAX
    }

    /// Decide the invariant at run time, for callers outside the verified
    /// world that want to test it before handing a viewport in.
    pub fn is_well_formed(&self) -> (b: bool)
        ensures
            b == self.wf(),
    {
        let grid_ok = 1 <= self.width_px && self.width_px <= MAX_DIM && 1 <= self.height_px
            && self.height_px <= MAX_DIM;
        let corner_ok = -COORD_LIMIT <= self.low_x && self.low_x <= COORD_LIMIT && -COORD_LIMIT
            <= self.low_y && self.low_y <= COORD_LIMIT;
        let extent_ok = EXTENT_MIN <= self.width && self.width <= EXTENT_MAX && EXTENT_MIN
            <= self.height && self.height <= EXTENT_MAX;
        let param_ok = MAX_ITER_MIN <= self.max_iter && self.max_iter <= MAX_ITER_MAX && RADIUS_MIN
            <= self.radius && self.radius <= RADIUS_MAX;
        grid_ok && corner_ok && extent_ok && param_ok
    }

    /// Make the viewport of the default full view for a pixel grid of the
    /// given dimensions.
    pub fn new(width_px: u32, height_px: u32) -> (m: Mandelbrot)
        requires
            1 <= width_px <= MAX_DIM,
            1 <= height_px <= MAX_DIM,
        ensures
            m == spec_default_view(width_px, height_px),
            m.wf(),
    {
        Mandelbrot {
            width_px,
            height_px,
            low_x: -0x2_0000_0000,
            low_y: -0x2_0000_0000,
            width: 4 * FIXED_ONE,
            height: 4 * FIXED_ONE,
            max_iter: 128,
            radius: 128 * FIXED_ONE,
        }
    }

    /// Zoom-in at device pixel `(px, py)`: center the clicked plane point in
    /// a rectangle a quarter the linear size.
    pub fn zoom_in(&mut self, px: u32, py: u32)
        requires
            old(self).wf(),
            px <= old(self).width_px,
            py <= old(self).height_px,
        ensures
            *final(self) == spec_zoom_in(*old(self), px, py),
            final(self).wf(),
    {
        proof {
            crate::fixed::lemma_mul_le(px as int, self.width as int, MAX_DIM as int, EXTENT_MAX as int);
            crate::fixed::lemma_mul_le(py as int, self.height as int, MAX_DIM as int, EXTENT_MAX as int);
        }
        let qx: u64 = (px as u64 * self.width) / (self.width_px as u64);
        let qy: u64 = (py as u64 * self.height) / (self.height_px as u64);
        let new_w: u64 = if self.width / 4 >= EXTENT_MIN {
            self.width / 4
        } else {
            EXTENT_MIN
        };
        let new_h: u64 = if self.height / 4 >= EXTENT_MIN {
            self.height / 4
        } else {
            EXTENT_MIN
        };
        let lx: i128 = self.low_x as i128 + qx as i128 - (new_w / 2) as i128;
        let ly: i128 = self.low_y as i128 + qy as i128 - (new_h / 2) as i128;
        self.low_x = clamp_coord(lx);
        self.low_y = clamp_coord(ly);
        self.width = new_w;
        self.height = new_h;
    }

    /// Zoom-out at device pixel `(px, py)`: the algebraic inverse of zoom-in
    /// at the same pixel, up to the clamps.
    pub fn zoom_out(&mut self, px: u32, py: u32)
        requires
            old(self).wf(),
            px <= old(self).width_px,
            py <= old(self).height_px,
        ensures
            *final(self) == spec_zoom_out(*old(self), px, py),
            final(self).wf(),
    {
        let new_w: u64 = if self.width <= EXTENT_MAX / 4 {
            self.width * 4
        } else {
            EXTENT_MAX
        };
        let new_h: u64 = if self.height <= EXTENT_MAX / 4 {
            self.height * 4
        } else {
            EXTENT_MAX
        };
        proof {
            crate::fixed::lemma_mul_le(px as int, new_w as int, MAX_DIM as int, EXTENT_MAX as int);
            crate::fixed::lemma_mul_le(py as int, new_h as int, MAX_DIM as int, EXTENT_MAX as int);
        }
        let qx: u64 = (px as u64 * new_w) / (self.width_px as u64);
        let qy: u64 = (py as u64 * new_h) / (self.height_px as u64);
        let lx: i128 = self.low_x as i128 + (self.width / 2) as i128 - qx as i128;
        let ly: i128 = self.low_y as i128 + (self.height / 2) as i128 - qy as i128;
        self.low_x = clamp_coord(lx);
        self.low_y = clamp_coord(ly);
        self.width = new_w;
        self.height = new_h;
    }

    /// Double the iteration budget, capped at `MAX_ITER_MAX`.
    pub fn increase_detail(&mut self)
        requires
            old(self).wf(),
        ensures
            *final(self) == spec_increase_detail(*old(self)),
            final(self).wf(),
    {
        if self.max_iter <= MAX_ITER_MAX / 2 {
            self.max_iter = self.max_iter * 2;
        } else {
            self.max_iter = MAX_ITER_MAX;
        }
    }

    /// Halve the iteration budget, clamped to at least one.
    pub fn decrease_detail(&mut self)
        requires
            old(self).wf(),
        ensures
            *final(self) == spec_decrease_detail(*old(self)),
            final(self).wf(),
    {
        if self.max_iter / 2 >= MAX_ITER_MIN {
            self.max_iter = self.max_iter / 2;
        } else {
            self.max_iter = MAX_ITER_MIN;
        }
    }

    /// Double the escape radius, capped at `RADIUS_MAX`.
    pub fn increase_radius(&mut self)
        requires
            old(self).wf(),
        ensures
            *final(self) == spec_increase_radius(*old(self)),
            final(self).wf(),
    {
        if self.radius <= RADIUS_MAX / 2 {
            self.radius = self.radius * 2;
        } else {
            self.radius = RADIUS_MAX;
        }
    }

    /// Halve the escape radius, clamped to a small positive minimum.
    pub fn decrease_radius(&mut self)
        requires
            old(self).wf(),
        ensures
            *final(self) == spec_decrease_radius(*old(self)),
            final(self).wf(),
    {
        if self.radius / 2 >= RADIUS_MIN {
            self.radius = self.radius / 2;
        } else {
            self.radius = RADIUS_MIN;
        }
    }
}

/// Law: zoom-out is the algebraic inverse of zoom-in. Zooming in and then
/// out at the same device pixel, with no other transition between, restores
/// every viewport field exactly, whenever the extents are multiples of four
/// steps and the zoomed-in corner stays inside the representable plane
/// square (so no clamp fires on the way).
pub proof fn lemma_zoom_round_trip(v: Mandelbrot, px: u32, py: u32)
    requires
        v.wf(),
        px <= v.width_px,
        py <= v.height_px,
        v.width % 4 == 0,
        v.height % 4 == 0,
        -COORD_LIMIT <= v.low_x + spec_pixel_offset(px as int, v.width as int, v.width_px as int)
            - ((v.width as int) / 4) / 2 <= COORD_LIMIT,
        -COORD_LIMIT <= v.low_y + spec_pixel_offset(py as int, v.height as int, v.height_px as int)
            - ((v.height as int) / 4) / 2 <= COORD_LIMIT,
    ensures
        spec_zoom_out(spec_zoom_in(v, px, py), px, py) == v,
{
    let w = v.width as int;
    let h = v.height as int;
    vstd::arithmetic::div_mod::lemma_fundamental_div_mod(w, 4);
    vstd::arithmetic::div_mod::lemma_fundamental_div_mod(h, 4);
    assert(4 * (w / 4) == w);
    assert(4 * (h / 4) == h);
    let v1 = spec_zoom_in(v, px, py);
    assert(v1.width == w / 4 && v1.height == h / 4);
    assert((v1.width as int) * 4 == w);
    assert(spec_quadruple(v1.width as int) == w);
    assert(spec_quadruple(v1.height as int) == h);
    let v2 = spec_zoom_out(v1, px, py);
    assert(v2.low_x == v.low_x);
    assert(v2.low_y == v.low_y);
}

} // verus!
