//! The per-pixel escape-time iteration `z <- z^2 + c` from `z = 0`.
//!
//! All arithmetic is exact fixed-point integer arithmetic (see `fixed`), so
//! the iteration count of a pixel is a mathematical function of
//! `(c_x, c_y, radius^2, max_iter)` alone, given by `spec_escape`.

use vstd::prelude::*;

use crate::fixed::FIXED_ONE;
use crate::fixed::MAX_ITER_MAX;
use crate::fixed::fx_abs;
use crate::fixed::lemma_div_bound;
use crate::fixed::lemma_mul_le;
use crate::fixed::lemma_sq_lt;
use crate::fixed::spec_cross;
use crate::fixed::spec_sq;

verus! {

/// Largest magnitude a sample coordinate handed to the iteration may have:
/// a viewport corner plus a full extent (2^49).
pub const SAMPLE_LIMIT: i64 = 0x2_0000_0000_0000;

/// Largest squared escape radius, `RADIUS_MAX^2` rescaled (2^58).
pub const RSQ_LIMIT: u64 = 0x400_0000_0000_0000;

/// Magnitude bound on the iteration state `z` between steps (2^62).
pub const Z_LIMIT: i64 = 0x4000_0000_0000_0000;

/// The number of completed steps of `z <- z^2 + c` from `(zx, zy)` before
/// the squared modulus exceeds `rsq`, with at most `fuel` steps: a step is
/// taken only while `zx^2 + zy^2 <= rsq`. The imaginary part is updated
/// first, from the old real part, exactly as the rendering does.
pub open spec fn spec_escape(cx: int, cy: int, rsq: int, zx: int, zy: int, fuel: nat) -> nat
    decreases fuel,
{
    if fuel == 0 {
        0
    } else if spec_sq(zx) + spec_sq(zy) > rsq {
        0
    } else {
        1 + spec_escape(
            cx,
            cy,
            rsq,
            spec_sq(zx) - spec_sq(zy) + cx,
            spec_cross(zx, zy) + cy,
            (fuel - 1) as nat,
        )
    }
}

/// The escape time of the sample `c = (cx, cy)`: how many steps the
/// iteration completes before escaping past the squared radius `rsq`, at
/// most `max_iter`. A result equal to `max_iter` means the sample never
/// escaped within the budget.
pub fn escape_time(cx: i64, cy: i64, rsq: u64, max_iter: u32) -> (it: u32)
    requires
        -SAMPLE_LIMIT <= cx <= SAMPLE_LIMIT,
        -SAMPLE_LIMIT <= cy <= SAMPLE_LIMIT,
        rsq <= RSQ_LIMIT,
        max_iter <= MAX_ITER_MAX,
    ensures
        it == spec_escape(cx as int, cy as int, rsq as int, 0, 0, max_iter as nat),
        it <= max_iter,
{
    let mut zx: i64 = 0;
    let mut zy: i64 = 0;
    let mut it: u32 = 0;
    loop
        invariant_except_break
            -SAMPLE_LIMIT <= cx <= SAMPLE_LIMIT,
            -SAMPLE_LIMIT <= cy <= SAMPLE_LIMIT,
            rsq <= RSQ_LIMIT,
            max_iter <= MAX_ITER_MAX,
            -Z_LIMIT <= zx <= Z_LIMIT,
            -Z_LIMIT <= zy <= Z_LIMIT,
            it <= max_iter,
            spec_escape(cx as int, cy as int, rsq as int, 0, 0, max_iter as nat) == it
                + spec_escape(
                cx as int,
                cy as int,
                rsq as int,
                zx as int,
                zy as int,
                (max_iter - it) as nat,
            ),
        ensures
            it <= max_iter,
            it == spec_escape(cx as int, cy as int, rsq as int, 0, 0, max_iter as nat),
        decreases max_iter - it,
    {
        if it >= max_iter {
            break ;
        }
        let ax: u64 = if zx < 0 {
            (-zx) as u64
        } else {
            zx as u64
        };
        let ay: u64 = if zy < 0 {
            (-zy) as u64
        } else {
            zy as u64
        };
        proof {
            assert(ax == fx_abs(zx as int));
            assert(ay == fx_abs(zy as int));
            lemma_mul_le(ax as int, ax as int, Z_LIMIT as int, Z_LIMIT as int);
            lemma_mul_le(ay as int, ay as int, Z_LIMIT as int, Z_LIMIT as int);
        }
        let x2b: u128 = (ax as u128) * (ax as u128) / (FIXED_ONE as u128);
        let y2b: u128 = (ay as u128) * (ay as u128) / (FIXED_ONE as u128);
        proof {
            assert(x2b == spec_sq(zx as int));
            assert(y2b == spec_sq(zy as int));
        }
        if x2b + y2b > rsq as u128 {
            proof {
                assert(spec_sq(zx as int) + spec_sq(zy as int) > rsq);
                assert(spec_escape(
                    cx as int,
                    cy as int,
                    rsq as int,
                    zx as int,
                    zy as int,
                    (max_iter - it) as nat,
                ) == 0);
            }
            break ;
        }
        proof {
            // The squared modulus check passed, so |z| is small: each square
            // is at most rsq, hence each magnitude is below 2^46.
            lemma_div_bound(ax as int * ax as int, FIXED_ONE as int, rsq as int);
            lemma_div_bound(ay as int * ay as int, FIXED_ONE as int, rsq as int);
            assert((rsq as int + 1) * (FIXED_ONE as int) <= 0x1000_0000_0000_0000_0000_0000int);
            lemma_sq_lt(ax as int, 0x4000_0000_0000int);
            lemma_sq_lt(ay as int, 0x4000_0000_0000int);
            lemma_mul_le(2 * ax as int, ay as int, 0x8000_0000_0000int, 0x4000_0000_0000int);
            vstd::arithmetic::div_mod::lemma_div_is_ordered(
                2 * ax as int * ay as int,
                0x2000_0000_0000_0000_0000_0000int,
                FIXED_ONE as int,
            );
        }
        let x2: i64 = x2b as i64;
        let y2: i64 = y2b as i64;
        let crossm: u128 = 2 * (ax as u128) * (ay as u128) / (FIXED_ONE as u128);
        let cross: i128 = if (zx < 0) != (zy < 0) {
            -(crossm as i128)
        } else {
            crossm as i128
        };
        let nzy: i128 = cross + cy as i128;
        let nzx: i128 = x2 as i128 - y2 as i128 + cx as i128;
        proof {
            assert(cross == spec_cross(zx as int, zy as int));
            assert(nzx == spec_sq(zx as int) - spec_sq(zy as int) + cx);
            assert(spec_escape(
                cx as int,
                cy as int,
                rsq as int,
                zx as int,
                zy as int,
                (max_iter - it) as nat,
            ) == 1 + spec_escape(
                cx as int,
                cy as int,
                rsq as int,
                nzx as int,
                nzy as int,
                (max_iter - it - 1) as nat,
            ));
        }
        zy = nzy as i64;
        zx = nzx as i64;
        it = it + 1;
    }
    it
}

/// Law: escape-time iteration is deterministic. Identical sample
/// coordinates, squared radius and budget always yield the identical
/// iteration count; there is no hidden state.
pub proof fn lemma_escape_deterministic(
    cx1: int,
    cy1: int,
    rsq1: int,
    m1: nat,
    cx2: int,
    cy2: int,
    rsq2: int,
    m2: nat,
)
    requires
        cx1 == cx2,
        cy1 == cy2,
        rsq1 == rsq2,
        m1 == m2,
    ensures
        spec_escape(cx1, cy1, rsq1, 0, 0, m1) == spec_escape(cx2, cy2, rsq2, 0, 0, m2),
{
}

/// Law: a sample that escapes within some budget keeps the same escape time
/// under any larger budget; raising the detail never changes the colors of
/// points that already escaped.
pub proof fn lemma_escape_stable(
    cx: int,
    cy: int,
    rsq: int,
    zx: int,
    zy: int,
    f1: nat,
    f2: nat,
)
    requires
        f1 <= f2,
        spec_escape(cx, cy, rsq, zx, zy, f1) < f1,
    ensures
        spec_escape(cx, cy, rsq, zx, zy, f2) == spec_escape(cx, cy, rsq, zx, zy, f1),
    decreases f1,
{
    if spec_sq(zx) + spec_sq(zy) > rsq {
    } else {
        lemma_escape_stable(
            cx,
            cy,
            rsq,
            spec_sq(zx) - spec_sq(zy) + cx,
            spec_cross(zx, zy) + cy,
            (f1 - 1) as nat,
            (f2 - 1) as nat,
        );
    }
}

} // verus!
