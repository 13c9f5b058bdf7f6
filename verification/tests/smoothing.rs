use smooth_cameras::fixed::{clamp_i64, div_trunc_i64, lerp, SCALE};
use smooth_cameras::look_transform::{LookTransform, Vec3};
use smooth_cameras::smoother::{drive_camera, smoothed_projection_scale, Smoother};

fn v(x: i64, y: i64, z: i64) -> Vec3 {
    Vec3 { x, y, z }
}

#[test]
fn lerp_example_scenario() {
    // lag 0.9, prior 0, new 10 units: the smoothed value is 1 unit.
    assert_eq!(lerp(0, 10_000, 900), 1_000);
}

#[test]
fn lerp_steady_input_is_fixed_point() {
    assert_eq!(lerp(7_500, 7_500, 900), 7_500);
    assert_eq!(lerp(-7_500, -7_500, 999), -7_500);
}

#[test]
fn div_trunc_rounds_toward_zero() {
    assert_eq!(div_trunc_i64(7, 2), 3);
    assert_eq!(div_trunc_i64(-7, 2), -3);
    assert_eq!(div_trunc_i64(999, 1000), 0);
    assert_eq!(div_trunc_i64(-999, 1000), 0);
}

#[test]
fn clamp_picks_nearest_bound() {
    assert_eq!(clamp_i64(5, 0, 10), 5);
    assert_eq!(clamp_i64(-5, 0, 10), 0);
    assert_eq!(clamp_i64(15, 0, 10), 10);
}

#[test]
fn smoothed_eye_example_scenario() {
    // lag_weight 0.9, prior smoothed eye (0,0,0), new eye (10,0,0):
    // the smoothed eye is (1,0,0), since the lead weight is 0.1.
    let mut s = Smoother::new(900);
    let prior = LookTransform::new(v(0, 0, 0), v(0, 0, -10_000));
    s.smooth_transform(&prior);
    let new_tfm = LookTransform::new(v(10_000, 0, 0), v(0, 0, -10_000));
    let out = s.smooth_transform(&new_tfm);
    assert_eq!(out.eye, v(1_000, 0, 0));
    assert_eq!(out.target, v(0, 0, -10_000));
}

#[test]
fn first_smooth_returns_input_exactly() {
    let mut s = Smoother::new(950);
    let input = LookTransform::new_with_scale(v(3_000, -2_000, 500), v(0, 0, 0), 1_500);
    let out = s.smooth_transform(&input);
    assert_eq!(out, input);
}

#[test]
fn smooth_after_reset_returns_input_exactly() {
    let mut s = Smoother::new(900);
    s.smooth_transform(&LookTransform::new(v(100_000, 0, 0), v(0, 0, 0)));
    s.smooth_transform(&LookTransform::new(v(200_000, 0, 0), v(0, 0, 0)));
    s.reset();
    let input = LookTransform::new(v(-50_000, 7_000, 3_000), v(1_000, 2_000, 3_000));
    let out = s.smooth_transform(&input);
    assert_eq!(out, input);
}

#[test]
fn enabling_resets_history() {
    let mut s = Smoother::new(900);
    s.smooth_transform(&LookTransform::new(v(100_000, 0, 0), v(0, 0, 0)));
    s.set_enabled(false);
    assert!(!s.is_enabled());
    assert!(s.current_lerp_tfm().is_some());
    s.set_enabled(true);
    assert!(s.is_enabled());
    assert!(s.current_lerp_tfm().is_none());
    let input = LookTransform::new(v(9_000, 9_000, 9_000), v(0, 0, 0));
    let out = s.smooth_transform(&input);
    assert_eq!(out, input);
}

#[test]
fn steady_input_converges_exactly() {
    let mut s = Smoother::new(900);
    s.smooth_transform(&LookTransform::new(v(0, 0, 0), v(0, 0, 0)));
    let steady = LookTransform::new(v(10_000, -4_000, 2_500), v(500, 500, 500));
    let mut out = s.smooth_transform(&steady);
    for _ in 0..200 {
        out = s.smooth_transform(&steady);
    }
    assert_eq!(out, steady);
}

#[test]
fn smoothing_never_overshoots() {
    let mut s = Smoother::new(700);
    let a = LookTransform::new(v(0, 0, 0), v(0, 0, 0));
    let b = LookTransform::new(v(10_000, 10_000, 10_000), v(-10_000, -10_000, -10_000));
    s.smooth_transform(&a);
    let mut prev = a;
    for _ in 0..50 {
        let out = s.smooth_transform(&b);
        assert!(prev.eye.x <= out.eye.x && out.eye.x <= b.eye.x);
        assert!(b.target.x <= out.target.x && out.target.x <= prev.target.x);
        prev = out;
    }
}

#[test]
fn missing_scale_propagates_as_absent() {
    let mut s = Smoother::new(900);
    s.smooth_transform(&LookTransform::new(v(0, 0, 0), v(0, 0, 0)));
    let with_scale = LookTransform::new_with_scale(v(0, 0, 0), v(0, 0, 0), 2_000);
    let out = s.smooth_transform(&with_scale);
    assert_eq!(out.scale, None);
}

#[test]
fn scale_blends_when_both_sides_carry_one() {
    let mut s = Smoother::new(900);
    s.smooth_transform(&LookTransform::new_with_scale(v(0, 0, 0), v(0, 0, 0), 1_000));
    let out = s.smooth_transform(&LookTransform::new_with_scale(v(0, 0, 0), v(0, 0, 0), 11_000));
    // 1.0 * 0.9 + 11.0 * 0.1 = 2.0
    assert_eq!(out.scale, Some(2_000));
}

#[test]
fn up_hint_passes_through_unsmoothed() {
    let mut s = Smoother::new(900);
    s.smooth_transform(&LookTransform::new(v(0, 0, 0), v(0, 0, 0)));
    let mut input = LookTransform::new(v(0, 0, 0), v(0, 0, 0));
    input.up = Some(v(0, 0, SCALE));
    let out = s.smooth_transform(&input);
    assert_eq!(out.up, Some(v(0, 0, SCALE)));
}

#[test]
fn drive_camera_is_inert_when_disabled() {
    let mut s = Smoother::new(900);
    s.set_enabled(false);
    let look = LookTransform::new(v(5_000, 0, 0), v(0, 0, 0));
    let pose = drive_camera(&look, &mut s);
    assert!(pose.is_none());
    assert!(s.current_lerp_tfm().is_none());
}

#[test]
fn drive_camera_derives_pose_and_stores_history() {
    let mut s = Smoother::new(900);
    let look = LookTransform::new(v(5_000, 0, 0), v(0, 0, 0));
    let pose = drive_camera(&look, &mut s).unwrap();
    // First frame seeds the history, so the pose sits at the raw eye,
    // looking one unit toward the target.
    assert_eq!(pose.position, v(5_000, 0, 0));
    assert_eq!(pose.look_at, v(4_000, 0, 0));
    assert_eq!(pose.up, v(0, SCALE, 0));
    assert_eq!(s.current_lerp_tfm().unwrap(), look);
}

#[test]
fn projection_scale_flows_only_while_enabled() {
    let mut s = Smoother::new(900);
    assert_eq!(smoothed_projection_scale(&s), None);
    s.smooth_transform(&LookTransform::new_with_scale(v(0, 0, 0), v(0, 0, 0), 3_000));
    assert_eq!(smoothed_projection_scale(&s), Some(3_000));
    s.set_enabled(false);
    assert_eq!(smoothed_projection_scale(&s), None);
}

#[test]
fn lag_weight_is_adjustable() {
    let mut s = Smoother::new(900);
    assert_eq!(s.lag_weight(), 900);
    s.set_lag_weight(0);
    assert_eq!(s.lag_weight(), 0);
    // With no lag, smoothing passes the input straight through.
    s.smooth_transform(&LookTransform::new(v(1_000, 0, 0), v(0, 0, 0)));
    let input = LookTransform::new(v(9_000, 0, 0), v(0, 0, 0));
    assert_eq!(s.smooth_transform(&input), input);
}
