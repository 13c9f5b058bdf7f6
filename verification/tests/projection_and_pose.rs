use smooth_cameras::fixed::SCALE;
use smooth_cameras::look_transform::{eye_look_at_target_pose, isqrt_u64, vec3_add, world_up, LookTransform, Vec3};
use smooth_cameras::projection::{OrthographicProjection, Rect, ScalingMode, Vec2};

fn v(x: i64, y: i64, z: i64) -> Vec3 {
    Vec3 { x, y, z }
}

fn proj(mode: ScalingMode) -> OrthographicProjection {
    let mut p = OrthographicProjection::conventional();
    p.scaling_mode = mode;
    p
}

#[test]
fn auto_min_example_scenario() {
    // AutoMin{4,3} with an 800x300 viewport: 800*3 > 4*300, so the height
    // binds at 3 and the width follows the aspect ratio: (8, 3).
    let mut p = proj(ScalingMode::AutoMin { min_width: 4_000, min_height: 3_000 });
    p.update(800_000, 300_000);
    assert_eq!(
        p.area,
        Rect {
            min: Vec2 { x: -4_000, y: -1_500 },
            max: Vec2 { x: 4_000, y: 1_500 },
        }
    );
}

#[test]
fn auto_min_other_branch() {
    // A tall viewport: 300*3 < 4*800, so the width binds at 4 and the
    // height follows: (4, 32/3).
    let mut p = proj(ScalingMode::AutoMin { min_width: 4_000, min_height: 3_000 });
    p.update(300_000, 800_000);
    // height = 800*4/300 = 10.666 units
    assert_eq!(p.area.max.x - p.area.min.x, 4_000);
    assert_eq!(p.area.max.y - p.area.min.y, 10_666);
}

#[test]
fn auto_max_binds_above() {
    let mut p = proj(ScalingMode::AutoMax { max_width: 4_000, max_height: 3_000 });
    p.update(800_000, 300_000);
    // 800*3 >= 4*300, so the width binds at 4 and height = 300*4/800 = 1.5.
    assert_eq!(p.area.max.x - p.area.min.x, 4_000);
    assert_eq!(p.area.max.y - p.area.min.y, 1_500);
}

#[test]
fn window_size_divides_by_pixel_scale() {
    let mut p = proj(ScalingMode::WindowSize(2_000));
    p.update(800_000, 600_000);
    // 800 px at 2 px per unit: 400 by 300 units, centred.
    assert_eq!(
        p.area,
        Rect {
            min: Vec2 { x: -200_000, y: -150_000 },
            max: Vec2 { x: 200_000, y: 150_000 },
        }
    );
}

#[test]
fn fixed_vertical_and_horizontal_follow_aspect() {
    let mut p = proj(ScalingMode::FixedVertical(2_000));
    p.update(800_000, 400_000);
    assert_eq!(p.area.max.x - p.area.min.x, 4_000);
    assert_eq!(p.area.max.y - p.area.min.y, 2_000);

    let mut q = proj(ScalingMode::FixedHorizontal(2_000));
    q.update(800_000, 400_000);
    assert_eq!(q.area.max.x - q.area.min.x, 2_000);
    assert_eq!(q.area.max.y - q.area.min.y, 1_000);
}

#[test]
fn fixed_ignores_viewport() {
    let mut p = proj(ScalingMode::Fixed { width: 6_000, height: 5_000 });
    p.update(800_000, 300_000);
    let area_a = p.area;
    p.update(123_000, 456_000);
    assert_eq!(p.area, area_a);
}

#[test]
fn update_is_deterministic() {
    let mut a = proj(ScalingMode::AutoMin { min_width: 4_000, min_height: 3_000 });
    let mut b = proj(ScalingMode::AutoMin { min_width: 4_000, min_height: 3_000 });
    a.update(777_000, 333_000);
    b.update(777_000, 333_000);
    assert_eq!(a.area, b.area);
    let first = a.area;
    a.update(777_000, 333_000);
    assert_eq!(a.area, first);
}

#[test]
fn scale_multiplies_area() {
    let mut p = proj(ScalingMode::Fixed { width: 4_000, height: 2_000 });
    p.scale = 2_000;
    p.update(800_000, 600_000);
    assert_eq!(
        p.area,
        Rect {
            min: Vec2 { x: -4_000, y: -2_000 },
            max: Vec2 { x: 4_000, y: 2_000 },
        }
    );
}

#[test]
fn viewport_origin_anchors_area() {
    let mut p = proj(ScalingMode::Fixed { width: 4_000, height: 2_000 });
    p.viewport_origin = Vec2 { x: 0, y: 0 };
    p.update(800_000, 600_000);
    assert_eq!(
        p.area,
        Rect {
            min: Vec2 { x: 0, y: 0 },
            max: Vec2 { x: 4_000, y: 2_000 },
        }
    );
}

#[test]
fn clip_planes_come_back_swapped() {
    let mut p = OrthographicProjection::conventional();
    p.near = -7;
    p.far = 1_234;
    // The reversed-depth convention: far feeds the matrix's near slot.
    assert_eq!(p.clip_planes_reversed(), (1_234, -7));
}

#[test]
fn pose_looks_one_unit_toward_target() {
    // 3-4-0 offset: length 5 units, direction (0.6, 0.8, 0).
    let t = LookTransform::new(v(0, 0, 0), v(3_000, 4_000, 0));
    assert_eq!(t.radius(), 5_000);
    assert_eq!(t.look_direction(), Some(v(600, 800, 0)));
    let pose = eye_look_at_target_pose(&t);
    assert_eq!(pose.position, v(0, 0, 0));
    assert_eq!(pose.look_at, v(600, 800, 0));
    assert_eq!(pose.up, v(0, SCALE, 0));
}

#[test]
fn degenerate_pose_degrades_to_fallback_forward() {
    let t = LookTransform::new(v(1_000, 2_000, 3_000), v(1_000, 2_000, 3_000));
    assert_eq!(t.radius(), 0);
    assert_eq!(t.look_direction(), None);
    let pose = eye_look_at_target_pose(&t);
    assert_eq!(pose.position, v(1_000, 2_000, 3_000));
    assert_eq!(pose.look_at, v(1_000, 2_000, 2_000));
}

#[test]
fn explicit_up_hint_wins() {
    let mut t = LookTransform::new(v(0, 0, 0), v(0, 0, -5_000));
    t.up = Some(v(SCALE, 0, 0));
    let pose = eye_look_at_target_pose(&t);
    assert_eq!(pose.up, v(SCALE, 0, 0));
}

#[test]
fn vector_helpers_build_and_add() {
    assert_eq!(Vec3::new(1, 2, 3), v(1, 2, 3));
    assert_eq!(vec3_add(v(1, 2, 3), v(10, 20, 30)), v(11, 22, 33));
    assert_eq!(world_up(), v(0, SCALE, 0));
    assert_eq!(isqrt_u64(0), 0);
    assert_eq!(isqrt_u64(24), 4);
    assert_eq!(isqrt_u64(25), 5);
}
