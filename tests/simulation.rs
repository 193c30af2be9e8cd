use lorenz::camera::Camera;
use lorenz::fixed::ONE;
use lorenz::lorenz::{Coefficients, Point, MAX_COORD};
use lorenz::simulation::Simulation;
use lorenz::trail::Sample;

#[test]
fn classic_first_advance() {
    let mut s = Simulation::classic();
    s.advance(1);
    assert_eq!(s.state(), Point::new(9_000, 2_800, 0));
    assert_eq!(s.hue(), 50);
    assert_eq!(s.samples(), vec![Sample { pos: Point::new(9_000, 2_800, 0), hue: 50 }]);
}

#[test]
fn identical_runs_are_identical() {
    let mut a = Simulation::classic();
    let mut b = Simulation::classic();
    a.advance(3000);
    b.advance(3000);
    assert_eq!(a.state(), b.state());
    assert_eq!(a.samples(), b.samples());
}

#[test]
fn frames_do_not_change_the_trajectory() {
    let mut a = Simulation::classic();
    let mut b = Simulation::classic();
    for _ in 0..300 {
        a.advance(5);
    }
    b.advance(1500);
    assert_eq!(a.state(), b.state());
    assert_eq!(a.hue(), b.hue());
    assert_eq!(a.samples(), b.samples());
}

#[test]
fn trail_is_bounded() {
    let mut s = Simulation::classic();
    s.advance(6000);
    assert_eq!(s.len(), 5000);
    let v = s.samples();
    assert_eq!(v[4999].pos, s.state());
    assert_eq!(v[4999].hue, s.hue());
}

#[test]
fn stays_on_the_attractor() {
    let mut s = Simulation::classic();
    s.advance(10_000);
    let p = s.state();
    assert!(p.x.abs() < 30 * ONE && p.y.abs() < 40 * ONE && p.z.abs() < 60 * ONE);
    assert!(p.z > 0);
}

#[test]
fn zero_steps_change_nothing() {
    let mut s = Simulation::classic();
    s.advance(0);
    assert_eq!(s.len(), 0);
    assert_eq!(s.state(), Point::new(10_000, 0, 0));
}

#[test]
fn new_refuses_out_of_range() {
    let c = Coefficients::classic();
    assert!(Simulation::new(Point::new(MAX_COORD + 1, 0, 0), c, 10_000, 10, 50).is_none());
    assert!(Simulation::new(Point::new(0, 0, 0), c, -MAX_COORD - 1, 10, 50).is_none());
    let bad = Coefficients { sigma: 0, rho: i64::MIN, beta: 0 };
    assert!(Simulation::new(Point::new(0, 0, 0), bad, 10_000, 10, 50).is_none());
    assert!(Simulation::new(Point::new(0, 0, 0), c, 10_000, 10, 50).is_some());
}

#[test]
fn divergence_falls_back_to_the_start() {
    let start = Point::new(MAX_COORD, -MAX_COORD, 0);
    let mut s = Simulation::new(start, Coefficients::classic(), MAX_COORD, 4, 1).unwrap();
    s.advance(2);
    assert_eq!(s.state(), start);
    assert_eq!(s.samples(), vec![Sample { pos: start, hue: 1 }, Sample { pos: start, hue: 2 }]);
}

#[test]
fn restart_clears_the_trail() {
    let mut s = Simulation::classic();
    s.advance(10);
    s.restart();
    assert_eq!(s.len(), 0);
    assert_eq!(s.hue(), 0);
    assert_eq!(s.state(), Point::new(10_000, 0, 0));
    s.advance(1);
    assert_eq!(s.state(), Point::new(9_000, 2_800, 0));
}

#[test]
fn render_keeps_stored_hues_and_order() {
    let mut s = Simulation::new(Point::new(10_000, 0, 0), Coefficients::classic(), 10_000, 3, 100)
        .unwrap();
    s.advance(5);
    let samples = s.samples();
    let dots = s.render(&Camera::level(2 * ONE));
    assert_eq!(dots.len(), 3);
    for (d, smp) in dots.iter().zip(samples.iter()) {
        assert_eq!(d.hue, smp.hue);
        assert_eq!(d.x, 2 * smp.pos.x as i128);
        assert_eq!(d.y, 2 * smp.pos.y as i128);
        assert_eq!(d.z, 2 * smp.pos.z as i128);
    }
    assert_eq!(dots[0].hue, 300);
    assert_eq!(dots[2].hue, 500);
}

#[test]
fn rotation_is_reapplied_to_the_whole_trail() {
    let mut s = Simulation::classic();
    s.advance(20);
    let cam = Camera { scale: ONE, cos_pitch: 0, sin_pitch: ONE, cos_yaw: ONE, sin_yaw: 0 };
    let before = s.samples();
    let dots = s.render(&cam);
    for (d, smp) in dots.iter().zip(before.iter()) {
        assert_eq!(d.y, -(smp.pos.z as i128));
        assert_eq!(d.z, smp.pos.y as i128);
    }
    assert_eq!(s.samples(), before);
}

#[test]
fn polyline_vertices() {
    let mut s = Simulation::classic();
    s.advance(2);
    let v = s.polyline(ONE);
    let samples = s.samples();
    assert_eq!(v.len(), 2);
    assert_eq!(v[0], (samples[0].pos.x as i128, samples[0].pos.y as i128, samples[0].hue));
    assert_eq!(v[1].2, 100);
}
