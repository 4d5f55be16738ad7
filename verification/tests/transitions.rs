use mandelbrot::viewport::Mandelbrot;

const ONE: i64 = 0x1_0000_0000;

#[test]
fn default_view_is_the_full_square() {
    let v = Mandelbrot::new(800, 800);
    assert_eq!(v.width_px, 800);
    assert_eq!(v.height_px, 800);
    assert_eq!(v.low_x, -2 * ONE);
    assert_eq!(v.low_y, -2 * ONE);
    assert_eq!(v.width, 4 * ONE as u64);
    assert_eq!(v.height, 4 * ONE as u64);
    assert_eq!(v.max_iter, 128);
    assert_eq!(v.radius, 128 * ONE as u64);
}

#[test]
fn increase_detail_doubles() {
    let mut v = Mandelbrot::new(800, 800);
    v.increase_detail();
    assert_eq!(v.max_iter, 256);
}

#[test]
fn decrease_detail_halves() {
    let mut v = Mandelbrot::new(800, 800);
    v.decrease_detail();
    assert_eq!(v.max_iter, 64);
}

#[test]
fn decrease_detail_clamps_at_one() {
    let mut v = Mandelbrot::new(800, 800);
    for _ in 0..7 {
        v.decrease_detail();
    }
    assert_eq!(v.max_iter, 1);
    v.decrease_detail();
    assert_eq!(v.max_iter, 1);
    v.decrease_detail();
    assert_eq!(v.max_iter, 1);
}

#[test]
fn radius_doubles_and_halves() {
    let mut v = Mandelbrot::new(800, 800);
    v.increase_radius();
    assert_eq!(v.radius, 256 * ONE as u64);
    v.decrease_radius();
    v.decrease_radius();
    assert_eq!(v.radius, 64 * ONE as u64);
}

#[test]
fn radius_never_reaches_zero() {
    let mut v = Mandelbrot::new(800, 800);
    for _ in 0..80 {
        v.decrease_radius();
    }
    assert_eq!(v.radius, 1);
    assert!(v.radius > 0);
}

#[test]
fn zoom_in_centers_the_clicked_point() {
    let mut v = Mandelbrot::new(800, 800);
    // The click at pixel (400, 400) is the plane point (0, 0).
    v.zoom_in(400, 400);
    assert_eq!(v.width, ONE as u64);
    assert_eq!(v.height, ONE as u64);
    assert_eq!(v.low_x, -ONE / 2);
    assert_eq!(v.low_y, -ONE / 2);
    assert_eq!(v.max_iter, 128);
}

#[test]
fn zoom_out_quadruples_the_extent() {
    let mut v = Mandelbrot::new(800, 800);
    v.zoom_out(400, 400);
    assert_eq!(v.width, 16 * ONE as u64);
    assert_eq!(v.height, 16 * ONE as u64);
    // The old center stays the center: low = center - width / 2.
    assert_eq!(v.low_x, -8 * ONE);
    assert_eq!(v.low_y, -8 * ONE);
}

#[test]
fn deep_zoom_in_clamps_the_extent_positive() {
    let mut v = Mandelbrot::new(800, 800);
    for _ in 0..40 {
        v.zoom_in(400, 400);
    }
    assert_eq!(v.width, 1);
    assert_eq!(v.height, 1);
    v.zoom_in(400, 400);
    assert_eq!(v.width, 1);
    assert!(v.width > 0 && v.height > 0);
}

#[test]
fn zoom_out_caps_at_the_widest_extent() {
    let mut v = Mandelbrot::new(800, 800);
    for _ in 0..40 {
        v.zoom_out(0, 0);
    }
    assert_eq!(v.width, 0x1_0000_0000_0000);
    assert_eq!(v.height, 0x1_0000_0000_0000);
}

#[test]
fn zoom_round_trip_restores_the_viewport() {
    let v0 = Mandelbrot::new(800, 800);
    let mut v = v0;
    v.zoom_in(123, 456);
    v.zoom_out(123, 456);
    assert_eq!(v, v0);
}

#[test]
fn zoom_round_trip_restores_off_center_too() {
    let v0 = Mandelbrot::new(640, 480);
    let mut v = v0;
    v.zoom_in(0, 479);
    v.zoom_out(0, 479);
    assert_eq!(v, v0);
}
