use mandelbrot::color::RGB;
use mandelbrot::color::color_of;
use mandelbrot::escape::escape_time;
use mandelbrot::fixed::COLOR_ONE;
use mandelbrot::viewport::Mandelbrot;

const ONE: i64 = 0x1_0000_0000;

/// The squared default escape radius (128 plane units) in fixed-point.
const RSQ_128: u64 = 16384 * ONE as u64;

#[test]
fn corner_pixel_maps_to_the_corner_coordinate() {
    let v = Mandelbrot::new(800, 800);
    // Row-major index 0 is pixel (0, 0), the plane point (-2, -2).
    let (cx, cy) = v.plane_coords(0, 0);
    assert_eq!(cx, -2 * ONE);
    assert_eq!(cy, -2 * ONE);
}

#[test]
fn coordinates_scale_linearly_across_the_grid() {
    let v = Mandelbrot::new(800, 800);
    let (cx, cy) = v.plane_coords(400, 400);
    assert_eq!(cx, 0);
    assert_eq!(cy, 0);
    let (cx, cy) = v.plane_coords(800, 200);
    assert_eq!(cx, 2 * ONE);
    assert_eq!(cy, -ONE);
}

#[test]
fn escape_time_is_deterministic() {
    let a = escape_time(2 * ONE, 0, RSQ_128, 128);
    let b = escape_time(2 * ONE, 0, RSQ_128, 128);
    assert_eq!(a, b);
    assert_eq!(a, 4);
}

#[test]
fn origin_never_escapes() {
    assert_eq!(escape_time(0, 0, RSQ_128, 128), 128);
    assert_eq!(escape_time(0, 0, RSQ_128, 256), 256);
}

#[test]
fn escaped_points_keep_their_escape_time_under_more_detail() {
    assert_eq!(escape_time(2 * ONE, 0, RSQ_128, 128), 4);
    assert_eq!(escape_time(2 * ONE, 0, RSQ_128, 256), 4);
    assert_eq!(escape_time(2 * ONE, 0, RSQ_128, 1024), 4);
}

#[test]
fn palette_matches_the_formula_exactly() {
    // Progress 4/128 in color units is 2048 of 65536.
    assert_eq!(color_of(4, 128), RGB { r: 2048, g: 4096, b: 31744 });
    // Progress 4/256 is 1024.
    assert_eq!(color_of(4, 256), RGB { r: 1024, g: 2048, b: 32256 });
    // Progress 0: not black, the blue channel keeps half intensity.
    assert_eq!(color_of(0, 128), RGB { r: 0, g: 0, b: COLOR_ONE / 2 });
    // Progress 1/2 has full green.
    assert_eq!(color_of(64, 128), RGB { r: COLOR_ONE / 2, g: COLOR_ONE, b: COLOR_ONE / 4 });
}

#[test]
fn never_escaped_is_black() {
    assert_eq!(color_of(128, 128), RGB { r: 0, g: 0, b: 0 });
    assert_eq!(color_of(256, 256), RGB { r: 0, g: 0, b: 0 });
}

#[test]
fn render_is_repeatable() {
    let v = Mandelbrot::new(16, 16);
    let a = v.render();
    let b = v.render();
    assert_eq!(a.len(), 256);
    assert_eq!(a, b);
}

#[test]
fn one_frame_end_to_end() {
    let v = Mandelbrot::new(800, 800);
    let buf = v.render();
    assert_eq!(buf.len(), 800 * 800);
    for c in &buf {
        assert!(c.r <= COLOR_ONE);
        assert!(c.g <= COLOR_ONE);
        assert!(c.b <= COLOR_ONE);
    }
    // Pixel (400, 400), row-major index 400 * 800 + 400, samples the plane
    // point (0, 0), which never escapes: it is painted black.
    assert_eq!(buf[320400], RGB { r: 0, g: 0, b: 0 });
    // The top-left sample (-2, -2) escapes immediately: not black.
    assert_ne!(buf[0], RGB { r: 0, g: 0, b: 0 });
}
