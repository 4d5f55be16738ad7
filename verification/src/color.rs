//! The fixed palette keyed by normalized iteration count.
//!
//! A sample that never escaped within the budget is black; one that escaped
//! at step `it` has progress `p = it / max_iter` and is colored
//! `(p, 1 - 2*|1/2 - p|, (1 - p)/2)`, each channel a fixed-point fraction of
//! `COLOR_ONE` in `[0, 1]`.

use vstd::prelude::*;

use crate::fixed::COLOR_ONE;
use crate::fixed::MAX_ITER_MAX;
use crate::fixed::fx_abs;

verus! {

/// One color sample: red, green and blue channels as fixed-point fractions
/// of `COLOR_ONE`, so `0..=COLOR_ONE` covers `[0, 1]`.
#[derive(Clone, Copy, PartialEq, Eq, Structural, Debug)]
pub struct RGB {
    pub r: u32,
    pub g: u32,
    pub b: u32,
}

/// The normalized escape progress `it / max_iter` in color units,
/// truncated to a color step.
pub open spec fn spec_progress(it: nat, max_iter: nat) -> int {
    (it * COLOR_ONE) / (max_iter as int)
}

/// The palette: black for a sample that never escaped (`it == max_iter`),
/// else the piecewise-linear ramp over the progress.
pub open spec fn spec_color(it: nat, max_iter: nat) -> RGB {
    if it >= max_iter {
        RGB { r: 0, g: 0, b: 0 }
    } else {
        let p = spec_progress(it, max_iter);
        RGB {
            r: p as u32,
            g: (COLOR_ONE - 2 * fx_abs(COLOR_ONE / 2 - p)) as u32,
            b: ((COLOR_ONE - p) / 2) as u32,
        }
    }
}

/// Law: every channel of every palette entry lies in `[0, 1]`, that is in
/// `0..=COLOR_ONE`, and the progress of an escaped sample is below one.
pub proof fn lemma_color_in_range(it: nat, max_iter: nat)
    requires
        1 <= max_iter,
        it <= max_iter,
    ensures
        0 <= spec_color(it, max_iter).r <= COLOR_ONE,
        0 <= spec_color(it, max_iter).g <= COLOR_ONE,
        0 <= spec_color(it, max_iter).b <= COLOR_ONE,
        it < max_iter ==> 0 <= spec_progress(it, max_iter) < COLOR_ONE,
{
    if it < max_iter {
        vstd::arithmetic::mul::lemma_mul_strict_inequality(
            it as int,
            max_iter as int,
            COLOR_ONE as int,
        );
        vstd::arithmetic::div_mod::lemma_multiply_divide_lt(
            it * COLOR_ONE,
            max_iter as int,
            COLOR_ONE as int,
        );
        vstd::arithmetic::div_mod::lemma_div_pos_is_pos(it * COLOR_ONE, max_iter as int);
        vstd::arithmetic::mul::lemma_mul_nonnegative(it as int, COLOR_ONE as int);
    }
}

/// Law: the palette paints exactly the samples that never escaped black.
/// A sample that escaped strictly within the budget always keeps a visible
/// trace: its red or blue channel is positive.
pub proof fn lemma_black_iff_never_escaped(it: nat, max_iter: nat)
    requires
        1 <= max_iter,
        it <= max_iter,
    ensures
        it == max_iter ==> spec_color(it, max_iter) == (RGB { r: 0, g: 0, b: 0 }),
        it < max_iter ==> spec_color(it, max_iter).r > 0 || spec_color(it, max_iter).b > 0,
{
    if it < max_iter {
        lemma_color_in_range(it, max_iter);
        let p = spec_progress(it, max_iter);
        if p < COLOR_ONE / 2 {
            assert((COLOR_ONE - p) / 2 > 0);
        }
    }
}

/// The palette color of escape step `it` under budget `max_iter`.
pub fn color_of(it: u32, max_iter: u32) -> (c: RGB)
    requires
        1 <= max_iter <= MAX_ITER_MAX,
        it <= max_iter,
    ensures
        c == spec_color(it as nat, max_iter as nat),
        c.r <= COLOR_ONE,
        c.g <= COLOR_ONE,
        c.b <= COLOR_ONE,
{
    proof {
        lemma_color_in_range(it as nat, max_iter as nat);
    }
    if it >= max_iter {
        RGB { r: 0, g: 0, b: 0 }
    } else {
        let p: u32 = ((it as u64 * COLOR_ONE as u64) / (max_iter as u64)) as u32;
        let half: u32 = COLOR_ONE / 2;
        let d: u32 = if p >= half {
            p - half
        } else {
            half - p
        };
        RGB { r: p, g: COLOR_ONE - 2 * d, b: (COLOR_ONE - p) / 2 }
    }
}

} // verus!
