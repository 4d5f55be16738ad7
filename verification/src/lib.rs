//! An interactive Mandelbrot viewer core: a viewport over the complex plane,
//! its transition rules under user input, and the per-pixel escape-time
//! rendering that turns a viewport into a color buffer.
//!
//! Plane coordinates are exact fixed-point numbers (64-bit integers scaled by
//! `FIXED_ONE`), so every transition and every rendered pixel is a
//! mathematical function of the viewport, stated in the contracts below.
//! Color channels are fixed-point fractions of `COLOR_ONE` in `[0, 1]`.

pub mod color;
pub mod escape;
pub mod events;
pub mod fixed;
pub mod render;
pub mod viewport;
