use mandelbrot::events::Event;
use mandelbrot::events::Key;
use mandelbrot::events::MouseButton;
use mandelbrot::events::Reaction;
use mandelbrot::events::process_events;
use mandelbrot::viewport::Mandelbrot;

const ONE: i64 = 0x1_0000_0000;

#[test]
fn key_repeats_change_nothing() {
    let v0 = Mandelbrot::new(800, 800);
    let mut v = v0;
    let events = vec![
        Event::KeyDown { key: Key::Up, repeat: true },
        Event::KeyDown { key: Key::Up, repeat: true },
        Event::KeyDown { key: Key::Down, repeat: true },
        Event::KeyDown { key: Key::Left, repeat: true },
        Event::KeyDown { key: Key::Right, repeat: true },
    ];
    let t = process_events(&mut v, &events);
    assert_eq!(v, v0);
    assert!(t.keep_going);
    assert!(!t.recompute);
}

#[test]
fn initial_key_press_fires_once() {
    let mut v = Mandelbrot::new(800, 800);
    let events = vec![
        Event::KeyDown { key: Key::Up, repeat: false },
        Event::KeyDown { key: Key::Up, repeat: true },
        Event::KeyDown { key: Key::Up, repeat: true },
    ];
    let t = process_events(&mut v, &events);
    assert_eq!(v.max_iter, 256);
    assert!(t.keep_going);
    assert!(t.recompute);
}

#[test]
fn quit_stops_and_leaves_the_rest_unprocessed() {
    let mut v = Mandelbrot::new(800, 800);
    let events = vec![
        Event::KeyDown { key: Key::Up, repeat: false },
        Event::Quit,
        Event::KeyDown { key: Key::Up, repeat: false },
    ];
    let t = process_events(&mut v, &events);
    assert!(!t.keep_going);
    assert_eq!(v.max_iter, 256);
}

#[test]
fn app_terminating_stops_too() {
    let mut v = Mandelbrot::new(800, 800);
    let events = vec![Event::AppTerminating];
    let t = process_events(&mut v, &events);
    assert!(!t.keep_going);
    assert!(!t.recompute);
}

#[test]
fn events_apply_in_arrival_order() {
    let mut v = Mandelbrot::new(800, 800);
    let events = vec![
        Event::KeyDown { key: Key::Down, repeat: false },
        Event::KeyDown { key: Key::Down, repeat: false },
        Event::KeyDown { key: Key::Up, repeat: false },
    ];
    let t = process_events(&mut v, &events);
    assert_eq!(v.max_iter, 64);
    assert!(t.keep_going);
    assert!(t.recompute);
}

#[test]
fn primary_click_zooms_in_with_flipped_y() {
    let mut v = Mandelbrot::new(800, 800);
    // Device (400, 400) is the plane point (0, 0) after the vertical flip.
    let events = vec![Event::MouseButtonDown { button: MouseButton::Left, x: 400, y: 400 }];
    let t = process_events(&mut v, &events);
    assert_eq!(v.width, ONE as u64);
    assert_eq!(v.low_x, -ONE / 2);
    assert_eq!(v.low_y, -ONE / 2);
    assert!(t.recompute);
}

#[test]
fn secondary_click_zooms_out() {
    let mut v = Mandelbrot::new(800, 800);
    let events = vec![Event::MouseButtonDown { button: MouseButton::Right, x: 400, y: 400 }];
    let t = process_events(&mut v, &events);
    assert_eq!(v.width, 16 * ONE as u64);
    assert_eq!(v.low_x, -8 * ONE);
    assert!(t.recompute);
}

#[test]
fn other_buttons_and_keys_are_ignored() {
    let v0 = Mandelbrot::new(800, 800);
    let mut v = v0;
    let events = vec![
        Event::MouseButtonDown { button: MouseButton::Other, x: 100, y: 100 },
        Event::KeyDown { key: Key::Other, repeat: false },
        Event::Other,
    ];
    let t = process_events(&mut v, &events);
    assert_eq!(v, v0);
    assert!(t.keep_going);
    assert!(!t.recompute);
}

#[test]
fn clicks_outside_the_window_are_clamped_to_the_border() {
    let mut v = Mandelbrot::new(800, 800);
    // x clamps to 0; device y clamps to 800, which flips to row 0.
    let events = vec![Event::MouseButtonDown { button: MouseButton::Left, x: -50, y: 900 }];
    process_events(&mut v, &events);
    assert_eq!(v.width, ONE as u64);
    assert_eq!(v.low_x, -2 * ONE - ONE / 2);
    assert_eq!(v.low_y, -2 * ONE - ONE / 2);
}

#[test]
fn click_in_then_out_restores_the_viewport() {
    let v0 = Mandelbrot::new(800, 800);
    let mut v = v0;
    let events = vec![
        Event::MouseButtonDown { button: MouseButton::Left, x: 123, y: 456 },
        Event::MouseButtonDown { button: MouseButton::Right, x: 123, y: 456 },
    ];
    let t = process_events(&mut v, &events);
    assert_eq!(v, v0);
    assert!(t.recompute);
}

#[test]
fn apply_event_reports_the_reaction() {
    let mut v = Mandelbrot::new(800, 800);
    assert_eq!(v.apply_event(&Event::Quit), Reaction::Stop);
    assert_eq!(
        v.apply_event(&Event::KeyDown { key: Key::Up, repeat: false }),
        Reaction::Rerender
    );
    assert_eq!(
        v.apply_event(&Event::KeyDown { key: Key::Up, repeat: true }),
        Reaction::Ignore
    );
    assert_eq!(v.max_iter, 256);
}
