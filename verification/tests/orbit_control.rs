use smooth_cameras::fixed::SCALE;
use smooth_cameras::look_transform::Vec3;
use smooth_cameras::orbit::{
    cos_fx, scroll_to_pixels, sin_fx, wrap_angle, OrbitController, HALF_PI_FX, PITCH_LIMIT,
    PI_FX, TWO_PI_FX,
};
use smooth_cameras::projection::Vec2;

fn v(x: i64, y: i64, z: i64) -> Vec3 {
    Vec3 { x, y, z }
}

const NO_ROTATE: Vec2 = Vec2 { x: 0, y: 0 };
const NO_PAN: Vec2 = Vec2 { x: 0, y: 0 };

#[test]
fn trig_is_exact_at_quarter_points() {
    assert_eq!(sin_fx(0), 0);
    assert_eq!(sin_fx(HALF_PI_FX), SCALE);
    assert_eq!(sin_fx(PI_FX), 0);
    assert_eq!(cos_fx(0), SCALE);
    assert_eq!(cos_fx(PI_FX), -SCALE);
}

#[test]
fn wrap_angle_covers_both_signs() {
    assert_eq!(wrap_angle(0), 0);
    assert_eq!(wrap_angle(TWO_PI_FX), 0);
    assert_eq!(wrap_angle(TWO_PI_FX + 5), 5);
    assert_eq!(wrap_angle(-1), TWO_PI_FX - 1);
    assert_eq!(wrap_angle(-TWO_PI_FX), 0);
}

#[test]
fn repeated_zoom_in_stops_at_min_radius() {
    let mut c = OrbitController::new(10_000, v(0, 0, 0));
    for _ in 0..50 {
        c.control(NO_ROTATE, NO_PAN, 500);
        assert!(c.radius >= c.min_radius);
    }
    assert_eq!(c.radius, c.min_radius);
}

#[test]
fn repeated_zoom_out_stops_at_max_radius() {
    let mut c = OrbitController::new(10_000, v(0, 0, 0));
    c.max_radius = 25_000;
    for _ in 0..50 {
        c.control(NO_ROTATE, NO_PAN, -1_000);
        assert!(c.radius <= c.max_radius);
    }
    assert_eq!(c.radius, 25_000);
}

#[test]
fn one_zoom_step_scales_radius() {
    let mut c = OrbitController::new(10_000, v(0, 0, 0));
    // factor 1 - 0.5 = 0.5
    c.control(NO_ROTATE, NO_PAN, 500);
    assert_eq!(c.radius, 5_000);
}

#[test]
fn extreme_rotate_clamps_pitch_at_pole_margin() {
    let mut c = OrbitController::new(10_000, v(0, 0, 0));
    for _ in 0..10 {
        c.control(Vec2 { x: 0, y: 1_000_000 }, NO_PAN, 0);
        assert!(c.pitch <= PITCH_LIMIT);
    }
    assert_eq!(c.pitch, PITCH_LIMIT);
    for _ in 0..20 {
        c.control(Vec2 { x: 0, y: -1_000_000 }, NO_PAN, 0);
        assert!(c.pitch >= -PITCH_LIMIT);
    }
    assert_eq!(c.pitch, -PITCH_LIMIT);
}

#[test]
fn yaw_wraps_around_full_turns() {
    let mut c = OrbitController::new(10_000, v(0, 0, 0));
    c.control(Vec2 { x: 7_000, y: 0 }, NO_PAN, 0);
    assert_eq!(c.yaw, 7_000 - TWO_PI_FX);
}

#[test]
fn disabled_controller_ignores_input() {
    let mut c = OrbitController::new(10_000, v(1_000, 2_000, 3_000));
    c.enabled = false;
    c.control(Vec2 { x: 5_000, y: 5_000 }, Vec2 { x: 9_000, y: 9_000 }, 900);
    assert_eq!(c.yaw, 0);
    assert_eq!(c.pitch, 0);
    assert_eq!(c.radius, 10_000);
    assert_eq!(c.target, v(1_000, 2_000, 3_000));
}

#[test]
fn pan_shifts_target_in_camera_basis() {
    let mut c = OrbitController::new(10_000, v(0, 0, 0));
    // At yaw 0 and pitch 0 the right direction is (cos 0, 0, -sin 0) = +x
    // and the camera up is (0, cos 0, 0) = +y.
    c.control(NO_ROTATE, Vec2 { x: 2_000, y: 3_000 }, 0);
    assert_eq!(c.target, v(2_000, 3_000, 0));
    assert_eq!(c.radius, 10_000);
}

#[test]
fn scale_zoom_mode_drives_scale_not_radius() {
    let mut c = OrbitController::new_with_scale(10_000, v(0, 0, 0), 2_000);
    c.control(NO_ROTATE, NO_PAN, 500);
    assert_eq!(c.radius, 10_000);
    assert_eq!(c.scale, Some(1_000));
    // Repeated hard zoom-in can never collapse the scale to zero.
    for _ in 0..50 {
        c.control(NO_ROTATE, NO_PAN, 999);
        assert!(c.scale.unwrap() >= 1);
    }
    assert_eq!(c.scale, Some(1));
}

#[test]
fn look_transform_places_eye_at_radius() {
    let c = OrbitController::new(10_000, v(100, 200, 300));
    let t = c.look_transform();
    // yaw 0, pitch 0: the eye sits one radius along +z from the target.
    assert_eq!(t.target, v(100, 200, 300));
    assert_eq!(t.eye, v(100, 200, 10_300));
    assert_eq!(t.up, None);
    assert_eq!(t.scale, None);
    assert_eq!(t.radius(), 10_000);
}

#[test]
fn look_transform_after_quarter_yaw_turn() {
    let mut c = OrbitController::new(10_000, v(0, 0, 0));
    c.yaw = HALF_PI_FX;
    let t = c.look_transform();
    // sin and cos are exact at the quarter turn, so the eye sits on +x.
    assert_eq!(t.eye, v(10_000, 0, 0));
}

#[test]
fn scroll_lines_convert_to_pixels() {
    let c = OrbitController::new(10_000, v(0, 0, 0));
    // 53 pixels per line: 2 lines and 7 leftover pixels make 113 pixels.
    assert_eq!(scroll_to_pixels(&c, 2_000, 7), 106_007);
}

#[test]
fn pan_basis_follows_the_heading() {
    let mut c = OrbitController::new(10_000, v(0, 0, 0));
    c.yaw = HALF_PI_FX;
    // After a quarter turn the camera's right direction is -z.
    c.control(NO_ROTATE, Vec2 { x: 1_000, y: 0 }, 0);
    assert_eq!(c.target, v(0, 0, -1_000));
}
