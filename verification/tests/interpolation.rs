use mandelbrot::{get_interpolated_frames, AnimationError, Keyframe};

#[derive(Clone, Copy, Debug, PartialEq)]
struct Viewport {
    x_center: f32,
    y_center: f32,
    x_size: f32,
    y_size: f32,
}

fn lerp(a: &Viewport, b: &Viewport, num: usize, den: usize) -> Viewport {
    let t = num as f32 / den as f32;
    let flerp = |from: f32, to: f32| from + (to - from) * t;
    Viewport {
        x_center: flerp(a.x_center, b.x_center),
        y_center: flerp(a.y_center, b.y_center),
        x_size: flerp(a.x_size, b.x_size),
        y_size: flerp(a.y_size, b.y_size),
    }
}

fn weight(_a: &(usize, usize), _b: &(usize, usize), num: usize, den: usize) -> (usize, usize) {
    (num, den)
}

fn wide() -> Viewport {
    Viewport { x_center: -0.75, y_center: 0.0, x_size: 3.5, y_size: 3.5 }
}

fn narrow() -> Viewport {
    Viewport { x_center: -1.35, y_center: 0.0, x_size: 0.2, y_size: 0.2 }
}

fn close(a: f32, b: f32) -> bool {
    (a - b).abs() < 1e-5
}

fn at(index: usize) -> Keyframe<(usize, usize)> {
    Keyframe { viewport: (index, 0), index }
}

#[test]
fn midpoint_of_a_window_is_the_mean_of_its_keyframes() {
    let keyframes = [
        Keyframe { viewport: wide(), index: 0 },
        Keyframe { viewport: narrow(), index: 100 },
    ];
    let frames = get_interpolated_frames(&keyframes, &lerp).unwrap();
    let middle = &frames[50];
    assert_eq!(middle.index, 50);
    assert!(close(middle.viewport.x_center, -1.05));
    assert!(close(middle.viewport.y_center, 0.0));
    assert!(close(middle.viewport.x_size, 1.85));
    assert!(close(middle.viewport.y_size, 1.85));
}

#[test]
fn frame_at_a_keyframe_index_is_that_keyframe() {
    let keyframes = [
        Keyframe { viewport: wide(), index: 0 },
        Keyframe { viewport: narrow(), index: 100 },
        Keyframe { viewport: wide(), index: 300 },
    ];
    let frames = get_interpolated_frames(&keyframes, &lerp).unwrap();
    assert_eq!(frames[0].index, 0);
    assert_eq!(frames[0].viewport, wide());
    assert_eq!(frames[100].index, 100);
    assert_eq!(frames[100].viewport, narrow());
}

#[test]
fn three_keyframes_give_three_hundred_frames() {
    let keyframes = [at(0), at(100), at(300)];
    let frames = get_interpolated_frames(&keyframes, &weight).unwrap();
    assert_eq!(frames.len(), 300);
    for (position, frame) in frames.iter().enumerate() {
        assert_eq!(frame.index, position);
    }
}

#[test]
fn weights_run_from_one_up_to_the_window_length() {
    let keyframes = [at(0), at(100), at(300)];
    let frames = get_interpolated_frames(&keyframes, &weight).unwrap();
    assert_eq!(frames[1].viewport, (1, 100));
    assert_eq!(frames[50].viewport, (50, 100));
    assert_eq!(frames[99].viewport, (99, 100));
    assert_eq!(frames[101].viewport, (1, 200));
    assert_eq!(frames[250].viewport, (150, 200));
    assert_eq!(frames[299].viewport, (199, 200));
}

#[test]
fn first_frame_of_a_window_is_its_keyframe_whatever_the_blend() {
    let keyframes = [at(0), at(100), at(300)];
    let frames = get_interpolated_frames(&keyframes, &weight).unwrap();
    assert_eq!(frames[0].viewport, keyframes[0].viewport);
    assert_eq!(frames[0].index, 0);
    assert_eq!(frames[100].viewport, keyframes[1].viewport);
    assert_eq!(frames[100].index, 100);
}

#[test]
fn blend_is_not_asked_at_weight_zero() {
    let keyframes = [at(3), at(5), at(6), at(9)];
    let positive = |_a: &(usize, usize), _b: &(usize, usize), num: usize, den: usize| {
        assert!(0 < num && num < den);
        (num, den)
    };
    let frames = get_interpolated_frames(&keyframes, &positive).unwrap();
    let seen: Vec<(usize, usize)> = frames.iter().map(|frame| frame.viewport).collect();
    assert_eq!(seen, vec![(3, 0), (1, 2), (5, 0), (6, 0), (1, 3), (2, 3)]);
}

#[test]
fn keyframe_with_unbounded_neighbour_is_still_reproduced() {
    let endless = Viewport {
        x_center: f32::INFINITY,
        y_center: f32::NAN,
        x_size: f32::MAX,
        y_size: f32::NEG_INFINITY,
    };
    let keyframes = [
        Keyframe { viewport: wide(), index: 0 },
        Keyframe { viewport: endless, index: 4 },
    ];
    let frames = get_interpolated_frames(&keyframes, &lerp).unwrap();
    assert_eq!(frames[0].viewport, wide());
}

#[test]
fn last_keyframe_index_gets_no_frame() {
    let keyframes = [at(5), at(8)];
    let frames = get_interpolated_frames(&keyframes, &weight).unwrap();
    let indices: Vec<usize> = frames.iter().map(|frame| frame.index).collect();
    assert_eq!(indices, vec![5, 6, 7]);
    assert_eq!(frames[0].viewport, (5, 0));
    assert_eq!(frames[1].viewport, (1, 3));
    assert_eq!(frames[2].viewport, (2, 3));
}

#[test]
fn blend_gets_the_two_keyframes_of_the_window() {
    let keyframes = [
        Keyframe { viewport: 10u32, index: 0 },
        Keyframe { viewport: 20u32, index: 2 },
        Keyframe { viewport: 50u32, index: 3 },
    ];
    let pair = |a: &u32, b: &u32, _num: usize, _den: usize| a * 100 + b;
    let frames = get_interpolated_frames(&keyframes, &pair).unwrap();
    let seen: Vec<u32> = frames.iter().map(|frame| frame.viewport).collect();
    assert_eq!(seen, vec![10, 1020, 20]);
}

#[test]
fn equal_indices_are_rejected() {
    let keyframes = [at(5), at(5)];
    let result = get_interpolated_frames(&keyframes, &weight);
    assert_eq!(result.unwrap_err(), AnimationError::ConfigurationError);
}

#[test]
fn equal_indices_later_in_the_list_are_rejected() {
    let keyframes = [at(0), at(4), at(4), at(9)];
    let result = get_interpolated_frames(&keyframes, &weight);
    assert_eq!(result.unwrap_err(), AnimationError::ConfigurationError);
}

#[test]
fn falling_indices_are_rejected() {
    let keyframes = [at(0), at(7), at(3)];
    let result = get_interpolated_frames(&keyframes, &weight);
    assert_eq!(result.unwrap_err(), AnimationError::ConfigurationError);
}

#[test]
fn fewer_than_two_keyframes_are_rejected() {
    let none: [Keyframe<(usize, usize)>; 0] = [];
    assert_eq!(
        get_interpolated_frames(&none, &weight).unwrap_err(),
        AnimationError::ConfigurationError
    );
    let one = [at(3)];
    assert_eq!(
        get_interpolated_frames(&one, &weight).unwrap_err(),
        AnimationError::ConfigurationError
    );
}

#[test]
fn rejected_keyframes_never_reach_the_blend() {
    let keyframes = [
        Keyframe { viewport: 0u8, index: 0 },
        Keyframe { viewport: 1u8, index: 10 },
        Keyframe { viewport: 2u8, index: 10 },
    ];
    let never = |_a: &u8, _b: &u8, _num: usize, _den: usize| -> u8 { panic!("blend was called") };
    assert!(get_interpolated_frames(&keyframes, &never).is_err());
}

#[test]
fn interpolate_hands_over_offset_and_span() {
    let from = at(10);
    let to = at(14);
    let frame = from.interpolate(&to, 13, &weight);
    assert_eq!(frame.index, 13);
    assert_eq!(frame.viewport, (3, 4));
}

#[test]
fn interpolate_at_its_own_index_is_the_keyframe() {
    let from = Keyframe { viewport: wide(), index: 10 };
    let to = Keyframe { viewport: narrow(), index: 14 };
    let frame = from.interpolate(&to, 10, &lerp);
    assert_eq!(frame.index, 10);
    assert_eq!(frame.viewport, wide());
}
