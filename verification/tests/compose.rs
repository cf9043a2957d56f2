use lottie_core::animated::{Animated, AnimatedExt};
use lottie_core::fixed::ONE;
use lottie_core::geometry::Vector2D;
use lottie_core::keyframe::KeyFrame;
use lottie_core::transform::{Mat4, Transform};
use lottie_core::trig::{angle_from_x_axis, cos_sin_e, DEG_90, DEG_180};

fn constant_vec2(x: i64, y: i64) -> Animated<Vector2D> {
    Animated {
        animated: false,
        keyframes: vec![KeyFrame {
            value: Vector2D { x, y },
            start_frame: None,
            easing_out: None,
            easing_in: None,
        }],
    }
}

fn constant_scalar(v: i64) -> Animated<i64> {
    Animated {
        animated: false,
        keyframes: vec![KeyFrame { value: v, start_frame: None, easing_out: None, easing_in: None }],
    }
}

fn animated_position(p0: (i64, i64), f0: u32, p1: (i64, i64), f1: u32) -> Animated<Vector2D> {
    Animated {
        animated: true,
        keyframes: vec![
            KeyFrame {
                value: Vector2D { x: p0.0, y: p0.1 },
                start_frame: Some(f0),
                easing_out: Some(Vector2D { x: 250_000, y: 250_000 }),
                easing_in: Some(Vector2D { x: 750_000, y: 750_000 }),
            },
            KeyFrame {
                value: Vector2D { x: p1.0, y: p1.1 },
                start_frame: Some(f1),
                easing_out: None,
                easing_in: None,
            },
        ],
    }
}

fn base_transform() -> Transform {
    Transform {
        anchor: None,
        position: None,
        scale: constant_vec2(100_000_000, 100_000_000),
        rotation: constant_scalar(0),
        auto_orient: false,
    }
}

#[test]
fn identity_transform_yields_identity_matrix() {
    let t = base_transform();
    assert!(!t.is_animated());
    assert_eq!(t.value(0), Mat4::identity());
    assert_eq!(t.value(123), Mat4::identity());
    assert_eq!(t.initial_value(), Mat4::identity());
}

#[test]
fn pure_translation_has_clean_translation_column() {
    let mut t = base_transform();
    t.position = Some(constant_vec2(5_000_000, 7_000_000));
    for frame in [0u32, 1, 50, 10_000] {
        let m = t.value(frame);
        assert_eq!(m.m03, 5_000_000);
        assert_eq!(m.m13, 7_000_000);
        assert_eq!(m.m00, ONE);
        assert_eq!(m.m11, ONE);
        assert_eq!(m.m01, 0);
        assert_eq!(m.m10, 0);
        assert_eq!(m.m22, ONE);
        assert_eq!(m.m33, ONE);
        assert_eq!(m.m20, 0);
        assert_eq!(m.m23, 0);
    }
}

#[test]
fn anchor_offsets_translation() {
    let mut t = base_transform();
    t.anchor = Some(constant_vec2(1_000_000, 2_000_000));
    t.position = Some(constant_vec2(5_000_000, 7_000_000));
    let m = t.value(3);
    assert_eq!(m.m03, 4_000_000);
    assert_eq!(m.m13, 5_000_000);
    assert_eq!(m.m00, ONE);
}

#[test]
fn scale_divides_by_one_hundred() {
    let mut t = base_transform();
    t.scale = constant_vec2(200_000_000, 50_000_000);
    let m = t.value(0);
    assert_eq!(m.m00, 2_000_000);
    assert_eq!(m.m11, 500_000);
    assert_eq!(m.m01, 0);
    assert_eq!(m.m10, 0);
}

#[test]
fn right_angle_rotation_is_exact() {
    let mut t = base_transform();
    t.rotation = constant_scalar(90_000_000);
    let m = t.value(0);
    assert_eq!(m.m00, 0);
    assert_eq!(m.m10, ONE);
    assert_eq!(m.m01, -ONE);
    assert_eq!(m.m11, 0);
}

#[test]
fn cosine_and_sine_of_cardinal_angles_are_exact() {
    assert_eq!(cos_sin_e(0), (ONE, 0));
    assert_eq!(cos_sin_e(90_000_000), (0, ONE));
    assert_eq!(cos_sin_e(180_000_000), (-ONE, 0));
    assert_eq!(cos_sin_e(270_000_000), (0, -ONE));
    assert_eq!(cos_sin_e(360_000_000), (ONE, 0));
    assert_eq!(cos_sin_e(-90_000_000), (0, -ONE));
}

#[test]
fn cosine_and_sine_of_forty_five_degrees() {
    let (c, s) = cos_sin_e(45_000_000);
    assert!((c - 707_107).abs() <= 500, "cos 45 = {c}");
    assert!((s - 707_107).abs() <= 500, "sin 45 = {s}");
}

#[test]
fn angle_of_cardinal_directions() {
    assert_eq!(angle_from_x_axis(Vector2D { x: 10_000_000, y: 0 }), 0);
    assert_eq!(angle_from_x_axis(Vector2D { x: 0, y: 10_000_000 }), DEG_90);
    assert_eq!(angle_from_x_axis(Vector2D { x: -3_000_000, y: 0 }), DEG_180);
    assert_eq!(angle_from_x_axis(Vector2D { x: 0, y: -4_000_000 }), -DEG_90);
}

#[test]
fn angle_of_diagonal_direction() {
    let a = angle_from_x_axis(Vector2D { x: 1_000_000, y: 1_000_000 });
    assert!((a - 45_000_000).abs() <= 20_000, "angle = {a}");
}

#[test]
fn auto_orient_east_adds_no_rotation() {
    let mut t = base_transform();
    t.position = Some(animated_position((0, 0), 0, (10_000_000, 0), 10));
    t.auto_orient = true;
    let m = t.value(5);
    assert_eq!(m.m00, ONE);
    assert_eq!(m.m10, 0);
    assert_eq!(m.m01, 0);
    assert_eq!(m.m13, 0);
    assert_eq!(m.m03, 5_000_000);
}

#[test]
fn auto_orient_north_rotates_ninety_degrees() {
    let mut t = base_transform();
    t.position = Some(animated_position((0, 0), 0, (0, 10_000_000), 10));
    t.auto_orient = true;
    let m = t.value(5);
    assert_eq!(m.m00, 0);
    assert_eq!(m.m10, ONE);
    assert_eq!(m.m01, -ONE);
    assert_eq!(m.m11, 0);
    assert_eq!(m.m03, 0);
    assert_eq!(m.m13, 5_000_000);
}

#[test]
fn auto_orient_past_last_keyframe_adds_no_rotation() {
    let mut t = base_transform();
    t.position = Some(animated_position((0, 0), 0, (10_000_000, 0), 10));
    t.auto_orient = true;
    let m = t.value(20);
    assert_eq!(m.m00, ONE);
    assert_eq!(m.m10, 0);
    assert_eq!(m.m03, 10_000_000);
}

#[test]
fn transform_is_animated_from_any_component() {
    let mut t = base_transform();
    assert!(!t.is_animated());
    t.position = Some(animated_position((0, 0), 0, (10_000_000, 0), 10));
    assert!(t.is_animated());
}
