use mandelbrot::{
    frames_rayon, join_tasks, render_frame, AnimationError, Frame, FrameSlots, Keyframe, Pixel,
};

fn nearest(a: &u8, b: &u8, num: usize, den: usize) -> u8 {
    let from = *a as usize;
    let to = *b as usize;
    (from + (to - from) * num / den) as u8
}

fn tinted(viewport: &u8, x: u32, y: u32, _width: u32, _height: u32) -> Pixel {
    if x == 0 && y == 0 {
        Pixel::from_rgb(*viewport, 0, 0)
    } else {
        Pixel::from_rgb(255, 255, 255)
    }
}

fn tint_of(frame: &Frame) -> u8 {
    let palette = frame.palette().expect("the frame has a colour table");
    palette[3 * frame.indices()[0] as usize]
}

fn solid(shade: u8) -> Frame {
    Frame::from_pixels(2, 2, vec![Pixel::from_rgb(shade, 0, 0); 4]).unwrap()
}

#[test]
fn render_task_draws_and_quantises_one_viewport() {
    let keyframe = Keyframe { viewport: 77u8, index: 3 };
    let frame = render_frame(5, 4, &keyframe, &tinted).unwrap();
    assert_eq!(frame.width(), 5);
    assert_eq!(frame.height(), 4);
    assert_eq!(frame.indices().len(), 20);
    assert_eq!(tint_of(&frame), 77);
    let palette = frame.palette().unwrap();
    let other = frame.indices()[1] as usize;
    assert_eq!(&palette[3 * other..3 * other + 3], &[255, 255, 255]);
    for position in 1..20 {
        assert_eq!(frame.indices()[position] as usize, other);
    }
}

#[test]
fn rayon_frames_come_in_viewport_order() {
    let keyframes = [
        Keyframe { viewport: 0u8, index: 0 },
        Keyframe { viewport: 200u8, index: 200 },
    ];
    let frames = frames_rayon(6, 6, &keyframes, &nearest, &tinted).unwrap();
    assert_eq!(frames.len(), 200);
    for (position, frame) in frames.iter().enumerate() {
        assert_eq!(tint_of(frame) as usize, position);
        assert_eq!((frame.width(), frame.height()), (6, 6));
    }
}

#[test]
fn rayon_frames_keep_their_order_when_early_frames_take_longest() {
    let keyframes = [
        Keyframe { viewport: 0u8, index: 0 },
        Keyframe { viewport: 16u8, index: 16 },
    ];
    let slow_first = |viewport: &u8, x: u32, y: u32, width: u32, height: u32| {
        if x == 0 && y == 0 {
            let wait = std::time::Duration::from_millis(4 * (16 - *viewport as u64));
            let started = std::time::Instant::now();
            while started.elapsed() < wait {
                std::hint::spin_loop();
            }
        }
        tinted(viewport, x, y, width, height)
    };
    let frames = frames_rayon(3, 3, &keyframes, &nearest, &slow_first).unwrap();
    let tints: Vec<u8> = frames.iter().map(tint_of).collect();
    assert_eq!(tints, (0..16).collect::<Vec<u8>>());
}

#[test]
fn rayon_renderer_rejects_keyframes_out_of_order() {
    let keyframes = [
        Keyframe { viewport: 0u8, index: 5 },
        Keyframe { viewport: 9u8, index: 5 },
    ];
    let never = |_v: &u8, _x: u32, _y: u32, _w: u32, _h: u32| -> Pixel { panic!("nothing to shade") };
    let result = frames_rayon(4, 4, &keyframes, &nearest, &never);
    assert_eq!(result.unwrap_err(), AnimationError::ConfigurationError);
}

#[test]
fn new_slots_are_vacant() {
    let slots = FrameSlots::new(3);
    assert_eq!(slots.len(), 3);
    assert_eq!(slots.into_frames().unwrap_err(), AnimationError::FrameCreateError);
}

#[test]
fn no_slots_give_no_frames() {
    let frames = FrameSlots::new(0).into_frames().unwrap();
    assert!(frames.is_empty());
}

#[test]
fn frames_delivered_in_reverse_come_out_in_index_order() {
    let mut slots = FrameSlots::new(5);
    for index in (0..5).rev() {
        slots.assign(index, solid(index as u8 * 10));
    }
    let frames = slots.into_frames().unwrap();
    let tints: Vec<u8> = frames.iter().map(tint_of).collect();
    assert_eq!(tints, vec![0, 10, 20, 30, 40]);
}

#[test]
fn frames_delivered_in_any_order_come_out_in_index_order() {
    let mut slots = FrameSlots::new(6);
    for &index in &[3usize, 0, 5, 1, 4, 2] {
        slots.assign(index, solid(index as u8));
    }
    let frames = slots.into_frames().unwrap();
    let tints: Vec<u8> = frames.iter().map(tint_of).collect();
    assert_eq!(tints, vec![0, 1, 2, 3, 4, 5]);
}

#[test]
fn missing_frame_fails_the_batch() {
    let mut slots = FrameSlots::new(3);
    slots.assign(0, solid(1));
    slots.assign(2, solid(3));
    assert_eq!(slots.into_frames().unwrap_err(), AnimationError::FrameCreateError);
}

#[test]
fn joined_tasks_keep_their_order() {
    let tasks = vec![Ok(solid(7)), Ok(solid(8)), Ok(solid(9))];
    let frames = join_tasks(tasks).unwrap();
    let tints: Vec<u8> = frames.iter().map(tint_of).collect();
    assert_eq!(tints, vec![7, 8, 9]);
}

#[test]
fn first_failed_task_fails_the_batch() {
    let tasks = vec![
        Ok(solid(7)),
        Err(AnimationError::FrameCreateError),
        Ok(solid(9)),
        Err(AnimationError::FrameEncodeError),
    ];
    assert_eq!(join_tasks(tasks).unwrap_err(), AnimationError::FrameCreateError);
}

#[test]
fn no_tasks_join_to_no_frames() {
    assert!(join_tasks(Vec::new()).unwrap().is_empty());
}
