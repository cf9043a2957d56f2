use lottie_core::animated::{Animated, AnimatedExt, ValidationError};
use lottie_core::easing::ease;
use lottie_core::filename::split_file_at_dot;
use lottie_core::fixed::{HANDLE_LIMIT, ONE, VAL_LIMIT};
use lottie_core::geometry::{Bezier, Rgb, Vector2D};
use lottie_core::keyframe::KeyFrame;
use lottie_core::lerp::{try_lerp, Lerp, LerpError};

fn kf_scalar(value: i64, frame: Option<u32>, eo: Option<(i64, i64)>, ei: Option<(i64, i64)>) -> KeyFrame<i64> {
    KeyFrame {
        value,
        start_frame: frame,
        easing_out: eo.map(|(x, y)| Vector2D { x, y }),
        easing_in: ei.map(|(x, y)| Vector2D { x, y }),
    }
}

fn diagonal_scalar(v0: i64, f0: u32, v1: i64, f1: u32) -> Animated<i64> {
    Animated {
        animated: true,
        keyframes: vec![
            kf_scalar(v0, Some(f0), Some((250_000, 250_000)), Some((750_000, 750_000))),
            kf_scalar(v1, Some(f1), None, None),
        ],
    }
}

#[test]
fn not_animated_always_initial() {
    let a = Animated { animated: false, keyframes: vec![kf_scalar(42_000_000, None, None, None)] };
    assert!(!a.is_animated());
    assert_eq!(a.initial_value(), 42_000_000);
    assert_eq!(a.value(0), 42_000_000);
    assert_eq!(a.value(7), 42_000_000);
    assert_eq!(a.value(1_000_000), 42_000_000);
}

#[test]
fn first_keyframe_start_is_exact() {
    let a = Animated {
        animated: true,
        keyframes: vec![
            kf_scalar(11_000_000, Some(10), Some((100_000, 900_000)), Some((200_000, 800_000))),
            kf_scalar(22_000_000, Some(20), None, None),
        ],
    };
    assert_eq!(a.value(10), 11_000_000);
}

#[test]
fn last_keyframe_start_is_exact() {
    let a = Animated {
        animated: true,
        keyframes: vec![
            kf_scalar(11_000_000, Some(10), Some((100_000, 900_000)), Some((200_000, 800_000))),
            kf_scalar(22_000_000, Some(20), None, None),
        ],
    };
    assert_eq!(a.value(20), 22_000_000);
}

#[test]
fn out_of_range_frames_take_nearest_end() {
    let a = diagonal_scalar(11_000_000, 10, 22_000_000, 20);
    assert_eq!(a.value(25), 22_000_000);
    assert_eq!(a.value(100), 22_000_000);
    assert_eq!(a.value(9), 11_000_000);
    assert_eq!(a.value(0), 11_000_000);
}

#[test]
fn diagonal_handles_give_linear_interpolation() {
    let a = diagonal_scalar(0, 0, 100_000_000, 10);
    assert_eq!(a.value(5), 50_000_000);
    assert_eq!(a.value(2), 20_000_000);
}

#[test]
fn single_keyframe_animated_is_constant() {
    let a = Animated {
        animated: true,
        keyframes: vec![kf_scalar(9_000_000, Some(5), None, None)],
    };
    assert_eq!(a.value(5), 9_000_000);
    assert_eq!(a.value(7), 9_000_000);
    assert_eq!(a.value(2), 9_000_000);
}

#[test]
fn ease_diagonal_handles_are_the_identity_map() {
    let h0 = Vector2D { x: 250_000, y: 250_000 };
    let h1 = Vector2D { x: 750_000, y: 750_000 };
    assert_eq!(ease(h0, h1, 0), 0);
    assert_eq!(ease(h0, h1, 300_000), 300_000);
    assert_eq!(ease(h0, h1, 999_999), 999_999);
}

#[test]
fn ease_curved_handles_follow_the_curve() {
    // The standard "ease" curve with handles (0.25, 0.1) and (0.25, 1.0)
    // maps the time fraction 0.5 to about 0.8024.
    let h0 = Vector2D { x: 250_000, y: 100_000 };
    let h1 = Vector2D { x: 250_000, y: 1_000_000 };
    assert_eq!(ease(h0, h1, 0), 0);
    let r = ease(h0, h1, 500_000);
    assert!((r - 802_400).abs() <= 5_000, "eased = {r}");
    // An ease-in curve stays below the diagonal in its first half.
    let h2 = Vector2D { x: 420_000, y: 0 };
    let h3 = Vector2D { x: 1_000_000, y: 1_000_000 };
    let s = ease(h2, h3, 300_000);
    assert!(s < 200_000, "eased = {s}");
}

#[test]
fn scalar_lerp_direction() {
    let later: i64 = 10_000_000;
    let earlier: i64 = 20_000_000;
    assert_eq!(later.lerp(&earlier, 0), 20_000_000);
    assert_eq!(later.lerp(&earlier, ONE), 10_000_000);
    assert_eq!(later.lerp(&earlier, 500_000), 15_000_000);
}

#[test]
fn vector_lerp_componentwise() {
    let later = Vector2D { x: 10_000_000, y: -4_000_000 };
    let earlier = Vector2D { x: 0, y: 4_000_000 };
    let mid = later.lerp(&earlier, 500_000);
    assert_eq!(mid, Vector2D { x: 5_000_000, y: 0 });
}

#[test]
fn rgb_lerp_componentwise_with_truncation() {
    let later = Rgb { r: 200, g: 100, b: 0 };
    let earlier = Rgb { r: 100, g: 50, b: 255 };
    let mid = later.lerp(&earlier, 500_000);
    assert_eq!(mid, Rgb { r: 150, g: 75, b: 128 });
}

fn contour(points: &[(i64, i64)]) -> Bezier {
    let verts: Vec<Vector2D> = points.iter().map(|&(x, y)| Vector2D { x, y }).collect();
    Bezier { verticies: verts.clone(), in_tangent: verts.clone(), out_tangent: verts }
}

#[test]
fn shape_blend_elementwise() {
    let later = vec![contour(&[(0, 0), (10_000_000, 20_000_000)])];
    let earlier = vec![contour(&[(2_000_000, 2_000_000), (0, 0)])];
    let mid = later.lerp(&earlier, 500_000);
    assert_eq!(mid.len(), 1);
    assert_eq!(mid[0].verticies[0], Vector2D { x: 1_000_000, y: 1_000_000 });
    assert_eq!(mid[0].verticies[1], Vector2D { x: 5_000_000, y: 10_000_000 });
    assert_eq!(mid[0].in_tangent[1], Vector2D { x: 5_000_000, y: 10_000_000 });
    assert_eq!(mid[0].out_tangent[0], Vector2D { x: 1_000_000, y: 1_000_000 });
}

#[test]
fn mismatched_shapes_are_rejected() {
    let two = vec![contour(&[(0, 0), (1_000_000, 0)])];
    let three = vec![contour(&[(0, 0), (1_000_000, 0), (2_000_000, 0)])];
    match try_lerp(&two, &three, 500_000) {
        Err(LerpError::ShapeMismatch) => {}
        _ => panic!("a mismatched shape pair must be rejected"),
    }
    assert!(try_lerp(&two, &two, 500_000).is_ok());
}

#[test]
fn validation_accepts_well_formed() {
    let a = Animated::new(
        true,
        vec![
            kf_scalar(0, Some(0), Some((250_000, 250_000)), Some((750_000, 750_000))),
            kf_scalar(100_000_000, Some(10), None, None),
        ],
    )
    .unwrap();
    assert_eq!(a.value(5), 50_000_000);
}

#[test]
fn validation_rejects_empty() {
    assert_eq!(Animated::<i64>::new(false, vec![]).unwrap_err(), ValidationError::Empty);
}

#[test]
fn validation_rejects_value_out_of_range() {
    let r = Animated::new(false, vec![kf_scalar(VAL_LIMIT + 1, None, None, None)]);
    assert_eq!(r.unwrap_err(), ValidationError::ValueOutOfRange);
}

#[test]
fn validation_rejects_mismatched_shapes() {
    let kfs = vec![
        KeyFrame {
            value: vec![contour(&[(0, 0)])],
            start_frame: Some(0),
            easing_out: Some(Vector2D { x: 0, y: 0 }),
            easing_in: Some(Vector2D { x: ONE, y: ONE }),
        },
        KeyFrame {
            value: vec![contour(&[(0, 0), (1_000_000, 0)])],
            start_frame: Some(10),
            easing_out: None,
            easing_in: None,
        },
    ];
    assert_eq!(Animated::new(true, kfs).unwrap_err(), ValidationError::IncompatibleValues);
}

#[test]
fn validation_rejects_missing_start_frame() {
    let kfs = vec![
        kf_scalar(0, Some(0), Some((0, 0)), Some((ONE, ONE))),
        kf_scalar(1, None, None, None),
    ];
    assert_eq!(Animated::new(true, kfs).unwrap_err(), ValidationError::MissingStartFrame);
}

#[test]
fn validation_rejects_non_increasing_start_frames() {
    let kfs = vec![
        kf_scalar(0, Some(10), Some((0, 0)), Some((ONE, ONE))),
        kf_scalar(1, Some(10), None, None),
    ];
    assert_eq!(Animated::new(true, kfs).unwrap_err(), ValidationError::NonIncreasingStartFrames);
}

#[test]
fn validation_rejects_missing_easing() {
    let kfs = vec![
        kf_scalar(0, Some(0), None, Some((ONE, ONE))),
        kf_scalar(1, Some(10), None, None),
    ];
    assert_eq!(Animated::new(true, kfs).unwrap_err(), ValidationError::MissingEasing);
}

#[test]
fn validation_rejects_easing_out_of_range() {
    let kfs = vec![
        kf_scalar(0, Some(0), Some((HANDLE_LIMIT + 1, 0)), Some((ONE, ONE))),
        kf_scalar(1, Some(10), None, None),
    ];
    assert_eq!(Animated::new(true, kfs).unwrap_err(), ValidationError::EasingOutOfRange);
}

#[test]
fn alter_value_keeps_timing_and_easing() {
    let k = kf_scalar(5_000_000, Some(3), Some((1, 2)), Some((3, 4)));
    let k2 = k.alter_value(Rgb { r: 1, g: 2, b: 3 });
    assert_eq!(k2.value, Rgb { r: 1, g: 2, b: 3 });
    assert_eq!(k2.start_frame, Some(3));
    assert_eq!(k2.easing_out, Some(Vector2D { x: 1, y: 2 }));
    assert_eq!(k2.easing_in, Some(Vector2D { x: 3, y: 4 }));
}

#[test]
fn split_file_at_dot_cases() {
    let (before, after) = split_file_at_dot(&b"archive.tar.gz".to_vec());
    assert_eq!(before, b"archive".to_vec());
    assert_eq!(after, Some(b"tar.gz".to_vec()));

    let (before, after) = split_file_at_dot(&b"..".to_vec());
    assert_eq!(before, b"..".to_vec());
    assert_eq!(after, None);

    let (before, after) = split_file_at_dot(&b"noext".to_vec());
    assert_eq!(before, b"noext".to_vec());
    assert_eq!(after, None);

    let (before, after) = split_file_at_dot(&b".hidden".to_vec());
    assert_eq!(before, b".hidden".to_vec());
    assert_eq!(after, None);

    let (before, after) = split_file_at_dot(&b"a.b".to_vec());
    assert_eq!(before, b"a".to_vec());
    assert_eq!(after, Some(b"b".to_vec()));
}

#[test]
fn animated_color_blends_channels() {
    let a = Animated {
        animated: true,
        keyframes: vec![
            KeyFrame {
                value: Rgb { r: 0, g: 100, b: 200 },
                start_frame: Some(0),
                easing_out: Some(Vector2D { x: 250_000, y: 250_000 }),
                easing_in: Some(Vector2D { x: 750_000, y: 750_000 }),
            },
            KeyFrame {
                value: Rgb { r: 100, g: 200, b: 0 },
                start_frame: Some(10),
                easing_out: None,
                easing_in: None,
            },
        ],
    };
    assert_eq!(a.value(0), Rgb { r: 0, g: 100, b: 200 });
    assert_eq!(a.value(10), Rgb { r: 100, g: 200, b: 0 });
    assert_eq!(a.value(5), Rgb { r: 50, g: 150, b: 100 });
}

#[test]
fn animated_shape_blends_vertices() {
    let a = Animated {
        animated: true,
        keyframes: vec![
            KeyFrame {
                value: vec![contour(&[(0, 0), (10_000_000, 0)])],
                start_frame: Some(0),
                easing_out: Some(Vector2D { x: 250_000, y: 250_000 }),
                easing_in: Some(Vector2D { x: 750_000, y: 750_000 }),
            },
            KeyFrame {
                value: vec![contour(&[(0, 10_000_000), (10_000_000, 10_000_000)])],
                start_frame: Some(10),
                easing_out: None,
                easing_in: None,
            },
        ],
    };
    let start = a.value(0);
    assert_eq!(start[0].verticies[0], Vector2D { x: 0, y: 0 });
    let mid = a.value(5);
    assert_eq!(mid.len(), 1);
    assert_eq!(mid[0].verticies[0], Vector2D { x: 0, y: 5_000_000 });
    assert_eq!(mid[0].verticies[1], Vector2D { x: 10_000_000, y: 5_000_000 });
}
