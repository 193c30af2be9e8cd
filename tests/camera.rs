use lorenz::camera::{flatten_point, project_point, Camera};
use lorenz::fixed::{trunc_div_one, mul_fixed, ONE};
use lorenz::lorenz::Point;

#[test]
fn level_camera_only_scales() {
    let p = Point::new(10_000, -2_000_000, 35_000_000);
    assert_eq!(project_point(&p, &Camera::level(ONE)), (10_000, -2_000_000, 35_000_000));
    assert_eq!(
        project_point(&p, &Camera::level(7_500_000)),
        (75_000, -15_000_000, 262_500_000)
    );
}

#[test]
fn quarter_pitch_turns_y_into_z() {
    let p = Point::new(1_000_000, 2_000_000, 3_000_000);
    let cam = Camera { scale: ONE, cos_pitch: 0, sin_pitch: ONE, cos_yaw: ONE, sin_yaw: 0 };
    assert_eq!(project_point(&p, &cam), (1_000_000, -3_000_000, 2_000_000));
}

#[test]
fn quarter_yaw_turns_x_into_z() {
    let p = Point::new(1_000_000, 2_000_000, 3_000_000);
    let cam = Camera { scale: ONE, cos_pitch: ONE, sin_pitch: 0, cos_yaw: 0, sin_yaw: ONE };
    assert_eq!(project_point(&p, &cam), (3_000_000, 2_000_000, -1_000_000));
}

#[test]
fn pitch_then_yaw() {
    let p = Point::new(1_000_000, 2_000_000, 3_000_000);
    let cam = Camera { scale: 2 * ONE, cos_pitch: 0, sin_pitch: ONE, cos_yaw: 0, sin_yaw: ONE };
    // scaled (2, 4, 6); pitched (2, -6, 4); yawed (4, -6, -2)
    assert_eq!(project_point(&p, &cam), (4_000_000, -6_000_000, -2_000_000));
}

#[test]
fn trig_values_are_clamped() {
    let p = Point::new(1_000_000, 2_000_000, 3_000_000);
    let wild = Camera { scale: ONE, cos_pitch: 5 * ONE, sin_pitch: 0, cos_yaw: ONE, sin_yaw: -9 };
    let tame = Camera { scale: ONE, cos_pitch: ONE, sin_pitch: 0, cos_yaw: ONE, sin_yaw: -9 };
    assert_eq!(project_point(&p, &wild), project_point(&p, &tame));
}

#[test]
fn negative_scale_mirrors() {
    let p = Point::new(1_000_000, 0, -1_000_000);
    assert_eq!(project_point(&p, &Camera::level(-ONE)), (-1_000_000, 0, 1_000_000));
}

#[test]
fn flatten_drops_depth() {
    let p = Point::new(1_000_000, -2_000_000, 99);
    assert_eq!(flatten_point(&p, 3 * ONE), (3_000_000, -6_000_000));
}

#[test]
fn fixed_point_rounds_toward_zero() {
    assert_eq!(trunc_div_one(-1), 0);
    assert_eq!(trunc_div_one(1), 0);
    assert_eq!(trunc_div_one(-2_000_000), -2);
    assert_eq!(trunc_div_one(-2_999_999), -2);
    assert_eq!(mul_fixed(1_500_000, -3_000_000), -4_500_000);
    assert_eq!(mul_fixed(1, -1), 0);
    assert_eq!(mul_fixed(-1_500_001, 1), -1);
}
