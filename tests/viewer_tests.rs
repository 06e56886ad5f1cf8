use mandelbrot::camera::{Camera, Direction, MAX_ZOOM, MIN_ZOOM, POS_LIMIT};
use mandelbrot::escape::{escape, Complex, EscapeResult};
use mandelbrot::fixed::{fx_product, ONE};
use mandelbrot::input::{command_for_key, command_for_event, Command, Event, Key};
use mandelbrot::viewer::{map_point, seed, Family, Outcome, Viewer, JULIA_IM, JULIA_RE, MAX_ITERATIONS};

fn to_f64(v: i64) -> f64 {
    v as f64 / ONE as f64
}

fn point(re: f64, im: f64) -> Complex {
    Complex { re: (re * ONE as f64) as i64, im: (im * ONE as f64) as i64 }
}

#[test]
fn new_camera_defaults() {
    let c = Camera::new();
    assert_eq!(c.pos_x, -ONE / 2);
    assert_eq!(c.pos_y, 0);
    assert_eq!(c.zoom, ONE);
}

#[test]
fn pan_right_moves_by_tenth_over_zoom() {
    let mut c = Camera::new();
    c.pan(Direction::Right);
    assert_eq!(c.pos_x, -ONE / 2 + 429496729);
    assert_eq!(c.pos_y, 0);
    let mut z = Camera { pos_x: 0, pos_y: 0, zoom: 2 * ONE };
    z.pan(Direction::Up);
    assert_eq!(z.pos_y, 214748364);
    assert_eq!(z.pos_x, 0);
}

#[test]
fn opposite_pans_are_negations() {
    let start = Camera { pos_x: ONE, pos_y: -ONE, zoom: 3 * ONE };
    let (mut l, mut r, mut u, mut d) = (start, start, start, start);
    l.pan(Direction::Left);
    r.pan(Direction::Right);
    u.pan(Direction::Up);
    d.pan(Direction::Down);
    assert_eq!(l.pos_x - start.pos_x, -(r.pos_x - start.pos_x));
    assert_eq!(d.pos_y - start.pos_y, -(u.pos_y - start.pos_y));
    assert!(r.pos_x > start.pos_x);
}

#[test]
fn pan_left_then_right_restores() {
    let mut c = Camera { pos_x: 12345, pos_y: 678, zoom: 5 * ONE };
    let before = c;
    c.pan(Direction::Left);
    c.pan(Direction::Right);
    assert_eq!(c, before);
    c.pan(Direction::Down);
    c.pan(Direction::Up);
    assert_eq!(c, before);
}

#[test]
fn pan_stops_at_limit() {
    let mut c = Camera { pos_x: POS_LIMIT - 1, pos_y: 0, zoom: ONE };
    c.pan(Direction::Right);
    assert_eq!(c.pos_x, POS_LIMIT);
}

#[test]
fn zoom_compounds_geometrically() {
    let mut c = Camera::new();
    for _ in 0..10 {
        c.zoom_in();
    }
    let expected = 1.02f64.powi(10);
    assert!((to_f64(c.zoom) - expected).abs() < 1e-6);
    let mut d = Camera::new();
    for _ in 0..10 {
        d.zoom_out();
    }
    let expected_out = 1.0 / 1.02f64.powi(10);
    assert!((to_f64(d.zoom) - expected_out).abs() < 1e-6);
}

#[test]
fn zoom_in_then_out_restores() {
    let mut c = Camera { pos_x: 7, pos_y: -9, zoom: 3 * ONE + 17 };
    let before = c;
    c.zoom_in();
    assert_eq!(c.zoom, (before.zoom * 51) / 50);
    c.zoom_out();
    assert!(c.zoom == before.zoom || c.zoom == before.zoom - 1);
    assert_eq!(c.pos_x, before.pos_x);
    assert_eq!(c.pos_y, before.pos_y);
    let mut one = Camera::new();
    one.zoom_out();
    one.zoom_in();
    assert!(one.zoom == ONE || one.zoom == ONE - 1);
}

#[test]
fn zoom_held_within_limits() {
    let mut c = Camera { pos_x: 0, pos_y: 0, zoom: MAX_ZOOM };
    c.zoom_in();
    assert_eq!(c.zoom, MAX_ZOOM);
    let mut d = Camera { pos_x: 0, pos_y: 0, zoom: MIN_ZOOM };
    d.zoom_out();
    assert_eq!(d.zoom, MIN_ZOOM);
}

#[test]
fn inverse_view_shape() {
    let c = Camera::new();
    assert_eq!(c.inv_view(), [[ONE, 0, 0], [0, ONE, 0], [-ONE / 2, 0, ONE]]);
    let d = Camera { pos_x: 3 * ONE, pos_y: -ONE, zoom: 2 * ONE };
    assert_eq!(d.inv_view(), [[ONE / 2, 0, 0], [0, ONE / 2, 0], [3 * ONE, -ONE, ONE]]);
    let e = Camera { pos_x: 5, pos_y: 6, zoom: 4 * ONE };
    assert_eq!(e.inv_view(), [[ONE / 4, 0, 0], [0, ONE / 4, 0], [5, 6, ONE]]);
}

#[test]
fn track_follows_key_table() {
    let mut c = Camera::new();
    c.track(Key::Period);
    assert_eq!(c.zoom, ONE * 51 / 50);
    c.track(Key::Comma);
    assert!(c.zoom == ONE || c.zoom == ONE - 1);
    let mut p = Camera::new();
    p.track(Key::Up);
    assert_eq!(p.pos_y, 429496729);
    let before = p;
    p.track(Key::M);
    p.track(Key::Other);
    assert_eq!(p, before);
}

#[test]
fn iteration_doubling_and_halving() {
    let mut v = Viewer::new();
    assert_eq!(v.iterations, 256);
    for _ in 0..3 {
        assert_eq!(v.apply(Command::DoubleIterations), Outcome::Redraw);
    }
    assert_eq!(v.iterations, 2048);
    assert_eq!(v.apply(Command::HalveIterations), Outcome::Redraw);
    assert_eq!(v.iterations, 1024);
}

#[test]
fn doubling_held_at_maximum() {
    let mut v = Viewer::new();
    for _ in 0..30 {
        v.apply(Command::DoubleIterations);
    }
    assert_eq!(v.iterations, MAX_ITERATIONS);
}

#[test]
fn halving_one_reaches_zero() {
    let mut v = Viewer::new();
    v.iterations = 1;
    v.apply(Command::HalveIterations);
    assert_eq!(v.iterations, 0);
    v.apply(Command::HalveIterations);
    assert_eq!(v.iterations, 0);
    assert_eq!(escape(point(0.3, 0.2), Complex { re: 0, im: 0 }, 0), EscapeResult::Bounded);
    assert_eq!(escape(point(5.0, 0.0), Complex { re: 0, im: 0 }, 0), EscapeResult::Bounded);
    assert_eq!(v.evaluate(ONE, ONE), EscapeResult::Bounded);
}

#[test]
fn family_selection_idempotent() {
    let mut v = Viewer::new();
    v.apply(Command::SelectMandelbrot);
    v.apply(Command::SelectMandelbrot);
    assert_eq!(v.family, Family::Mandelbrot);
    v.apply(Command::SelectJulia);
    assert_eq!(v.family, Family::Julia);
    v.apply(Command::SelectJulia);
    assert_eq!(v.family, Family::Julia);
    assert_eq!(v.uniforms().family, Family::Julia);
}

#[test]
fn origin_never_escapes() {
    for n in [1u32, 2, 10, 256, 5000] {
        assert_eq!(escape(Complex { re: 0, im: 0 }, Complex { re: 0, im: 0 }, n), EscapeResult::Bounded);
    }
}

#[test]
fn two_escapes_after_one_step() {
    assert_eq!(escape(Complex { re: 2 * ONE, im: 0 }, Complex { re: 0, im: 0 }, 256), EscapeResult::Escaped(1));
    assert_eq!(escape(Complex { re: 2 * ONE, im: 0 }, Complex { re: 0, im: 0 }, 1), EscapeResult::Bounded);
}

#[test]
fn minus_one_is_bounded() {
    for n in [1u32, 2, 3, 256, 4096] {
        assert_eq!(escape(Complex { re: -ONE, im: 0 }, Complex { re: 0, im: 0 }, n), EscapeResult::Bounded);
    }
}

#[test]
fn far_point_escapes_at_first_step() {
    assert_eq!(escape(point(3.0, 0.0), Complex { re: 0, im: 0 }, 10), EscapeResult::Escaped(0));
    assert_eq!(escape(point(0.0, 1.0), Complex { re: 0, im: 0 }, 100), EscapeResult::Bounded);
    assert_eq!(escape(point(0.5, 0.5), Complex { re: 0, im: 0 }, 100), EscapeResult::Escaped(4));
}

#[test]
fn end_to_end_scenario() {
    let mut v = Viewer::new();
    assert_eq!(v.apply(Command::Pan(Direction::Right)), Outcome::Redraw);
    assert_eq!(v.apply(Command::Pan(Direction::Right)), Outcome::Redraw);
    assert_eq!(v.apply(Command::ZoomIn), Outcome::Redraw);
    assert!((to_f64(v.camera.pos_x) - (-0.3)).abs() < 1e-6);
    assert_eq!(v.camera.pos_y, 0);
    assert!((to_f64(v.camera.zoom) - 1.02).abs() < 1e-6);
    let u = v.uniforms();
    assert_eq!(u.iterations, 256);
    assert_eq!(u.family, Family::Mandelbrot);
    let m = u.inv_view;
    assert!((to_f64(m[0][0]) - 0.9804).abs() < 1e-4);
    assert!((to_f64(m[1][1]) - 0.9804).abs() < 1e-4);
    assert_eq!(m[0][1], 0);
    assert_eq!(m[0][2], 0);
    assert_eq!(m[1][0], 0);
    assert_eq!(m[1][2], 0);
    assert!((to_f64(m[2][0]) - (-0.3)).abs() < 1e-6);
    assert_eq!(m[2][1], 0);
    assert_eq!(m[2][2], ONE);
}

#[test]
fn event_commands_follow_table() {
    assert_eq!(command_for_event(Event::CloseRequested), Command::Close);
    assert_eq!(command_for_event(Event::Resized), Command::RedrawRequest);
    assert_eq!(command_for_event(Event::Refresh), Command::RedrawRequest);
    assert_eq!(command_for_event(Event::KeyDown(Key::Plus)), Command::DoubleIterations);
    assert_eq!(command_for_event(Event::KeyDown(Key::Minus)), Command::HalveIterations);
    assert_eq!(command_for_event(Event::KeyDown(Key::M)), Command::SelectMandelbrot);
    assert_eq!(command_for_event(Event::KeyDown(Key::J)), Command::SelectJulia);
    assert_eq!(command_for_event(Event::KeyDown(Key::Comma)), Command::ZoomOut);
    assert_eq!(command_for_event(Event::KeyDown(Key::Period)), Command::ZoomIn);
    assert_eq!(command_for_event(Event::KeyDown(Key::Up)), Command::Pan(Direction::Up));
    assert_eq!(command_for_event(Event::KeyDown(Key::Down)), Command::Pan(Direction::Down));
    assert_eq!(command_for_event(Event::KeyDown(Key::Left)), Command::Pan(Direction::Left));
    assert_eq!(command_for_event(Event::KeyDown(Key::Right)), Command::Pan(Direction::Right));
    assert_eq!(command_for_event(Event::KeyDown(Key::Other)), Command::Ignore);
    assert_eq!(command_for_event(Event::KeyUp(Key::Plus)), Command::Ignore);
    assert_eq!(command_for_event(Event::Other), Command::Ignore);
    assert_eq!(command_for_key(Key::Period), Command::ZoomIn);
}

#[test]
fn handle_close_and_ignore() {
    let mut v = Viewer::new();
    let before = v;
    assert_eq!(v.handle(Event::CloseRequested), Outcome::Close);
    assert_eq!(v, before);
    assert_eq!(v.handle(Event::KeyUp(Key::Plus)), Outcome::Idle);
    assert_eq!(v, before);
    assert_eq!(v.handle(Event::Resized), Outcome::Redraw);
    assert_eq!(v, before);
    assert_eq!(v.handle(Event::KeyDown(Key::Plus)), Outcome::Redraw);
    assert_eq!(v.iterations, 512);
}

#[test]
fn map_point_through_inverse_view() {
    let c = Camera { pos_x: -ONE / 2, pos_y: ONE / 4, zoom: 2 * ONE };
    let m = c.inv_view();
    let p = map_point(&m, ONE, -ONE);
    assert_eq!(p, Complex { re: 0, im: -ONE / 4 });
    let q = map_point(&m, 0, 0);
    assert_eq!(q, Complex { re: -ONE / 2, im: ONE / 4 });
    assert_eq!(fx_product(3 * ONE, ONE / 2), 3 * ONE / 2);
    assert_eq!(fx_product(-1, 1), -1);
}

#[test]
fn seed_per_family() {
    let p = Complex { re: 11, im: -22 };
    assert_eq!(seed(Family::Mandelbrot, p), (p, Complex { re: 0, im: 0 }));
    assert_eq!(seed(Family::Julia, p), (Complex { re: JULIA_RE, im: JULIA_IM }, p));
}

#[test]
fn evaluate_pixels() {
    let mut v = Viewer::new();
    assert_eq!(v.evaluate(0, 0), EscapeResult::Bounded);
    assert_eq!(v.evaluate(-ONE, ONE), EscapeResult::Escaped(1));
    v.apply(Command::SelectJulia);
    assert_eq!(v.evaluate(ONE / 2, 0), escape(Complex { re: JULIA_RE, im: JULIA_IM }, Complex { re: 0, im: 0 }, 256));
    assert_eq!(v.evaluate(-ONE, -ONE), EscapeResult::Escaped(0));
}
