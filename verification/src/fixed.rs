//! Fixed-point plane arithmetic.
//!
//! A plane coordinate is an `i64` holding the real value times `FIXED_ONE`;
//! an extent (viewport width or height) or an escape radius is a `u64` on the
//! same scale. A color channel is a `u32` holding the real value times
//! `COLOR_ONE`, so `0..=COLOR_ONE` covers `[0, 1]`.
//!
//! All bounds below exist so that every operation of the viewer stays inside
//! the machine integer ranges; the transitions clamp into them.

use vstd::prelude::*;

verus! {

/// One plane unit: coordinates are scaled by 2^32.
pub const FIXED_ONE: u64 = 0x1_0000_0000;

/// One color unit: channels are scaled by 2^16.
pub const COLOR_ONE: u32 = 0x1_0000;

/// Largest magnitude a viewport corner coordinate may have (2^16 plane units).
pub const COORD_LIMIT: i64 = 0x1_0000_0000_0000;

/// Smallest viewport extent: one fixed-point step.
pub const EXTENT_MIN: u64 = 1;

/// Largest viewport extent (2^16 plane units).
pub const EXTENT_MAX: u64 = 0x1_0000_0000_0000;

/// Smallest escape radius: one fixed-point step.
pub const RADIUS_MIN: u64 = 1;

/// Largest escape radius (2^13 plane units).
pub const RADIUS_MAX: u64 = 0x2000_0000_0000;

/// Smallest iteration budget.
pub const MAX_ITER_MIN: u32 = 1;

/// Largest iteration budget (2^30).
pub const MAX_ITER_MAX: u32 = 0x4000_0000;

/// Largest pixel grid side length.
pub const MAX_DIM: u32 = 4096;

/// Magnitude of an integer.
pub open spec fn fx_abs(a: int) -> int {
    if a < 0 {
        -a
    } else {
        a
    }
}

/// Clamp a coordinate into the representable plane square.
pub open spec fn fx_clamp_coord(a: int) -> int {
    if a < -COORD_LIMIT {
        -COORD_LIMIT as int
    } else if a > COORD_LIMIT {
        COORD_LIMIT as int
    } else {
        a
    }
}

/// The fixed-point square `z * z`, truncated toward zero.
pub open spec fn spec_sq(z: int) -> int {
    (fx_abs(z) * fx_abs(z)) / (FIXED_ONE as int)
}

/// The fixed-point product `2 * zx * zy`, truncated toward zero.
pub open spec fn spec_cross(zx: int, zy: int) -> int {
    let m = (2 * fx_abs(zx) * fx_abs(zy)) / (FIXED_ONE as int);
    if (zx < 0) != (zy < 0) {
        -m
    } else {
        m
    }
}

/// A product of bounded nonnegative factors is bounded by the product of the
/// bounds.
pub proof fn lemma_mul_le(a: int, b: int, x: int, y: int)
    by (nonlinear_arith)
    requires
        0 <= a <= x,
        0 <= b <= y,
    ensures
        a * b <= x * y,
{
}

/// A nonnegative number whose square is below a square is below the root.
pub proof fn lemma_sq_lt(a: int, m: int)
    by (nonlinear_arith)
    requires
        0 <= a,
        0 <= m,
        a * a < m * m,
    ensures
        a < m,
{
}

/// A bound on a quotient bounds the dividend.
pub proof fn lemma_div_bound(x: int, d: int, q: int)
    by (nonlinear_arith)
    requires
        0 <= x,
        0 < d,
        x / d <= q,
    ensures
        x < (q + 1) * d,
{
}

/// Exec clamp of a wide intermediate coordinate into the plane square.
pub fn clamp_coord(a: i128) -> (r: i64)
    ensures
        r == fx_clamp_coord(a as int),
{
    if a < -COORD_LIMIT as i128 {
        -COORD_LIMIT
    } else if a > COORD_LIMIT as i128 {
        COORD_LIMIT
    } else {
        a as i64
    }
}

} // verus!
