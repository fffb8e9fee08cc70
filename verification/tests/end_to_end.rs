use mandelbrot::{
    frames_rayon, get_interpolated_frames, Animation, Framerate, Keyframe, Pixel,
};

fn triangle(a: &u8, b: &u8, num: usize, den: usize) -> u8 {
    let from = *a as usize;
    let to = *b as usize;
    if to >= from {
        (from + (to - from) * num / den) as u8
    } else {
        (from - (from - to) * num / den) as u8
    }
}

fn quartered(viewport: &u8, x: u32, y: u32, width: u32, height: u32) -> Pixel {
    let right = if x < width / 2 { 0 } else { 255 };
    let lower = if y < height / 2 { 0 } else { 255 };
    Pixel::from_rgb(*viewport, right, lower)
}

fn zoom_in_and_out() -> [Keyframe<u8>; 3] {
    [
        Keyframe { viewport: 0u8, index: 0 },
        Keyframe { viewport: 100u8, index: 100 },
        Keyframe { viewport: 0u8, index: 300 },
    ]
}

fn expected_tint(position: usize) -> usize {
    if position < 100 {
        position
    } else {
        100 - (position - 100) / 2
    }
}

fn assert_full_size(keyframes: &[Keyframe<u8>], first: usize) {
    let frames = frames_rayon(500, 500, keyframes, &triangle, &quartered).unwrap();
    assert_eq!(frames.len(), 100);
    for (offset, frame) in frames.iter().enumerate() {
        assert_eq!(frame.width(), 500);
        assert_eq!(frame.height(), 500);
        assert_eq!(frame.indices().len(), 250_000);
        let palette = frame.palette().unwrap();
        let corner = frame.indices()[0] as usize;
        assert_eq!(palette[3 * corner] as usize, expected_tint(first + offset));
    }
}

#[test]
fn zoom_frames_0_to_99_are_full_size() {
    let keyframes = [
        Keyframe { viewport: 0u8, index: 0 },
        Keyframe { viewport: 100u8, index: 100 },
    ];
    assert_full_size(&keyframes, 0);
}

#[test]
fn zoom_frames_100_to_199_are_full_size() {
    let keyframes = [
        Keyframe { viewport: 100u8, index: 100 },
        Keyframe { viewport: 50u8, index: 200 },
    ];
    assert_full_size(&keyframes, 100);
}

#[test]
fn zoom_frames_200_to_299_are_full_size() {
    let keyframes = [
        Keyframe { viewport: 50u8, index: 200 },
        Keyframe { viewport: 0u8, index: 300 },
    ];
    assert_full_size(&keyframes, 200);
}

#[test]
fn zoom_at_24_frames_per_second_shows_each_frame_for_four_hundredths() {
    let viewports = get_interpolated_frames(&zoom_in_and_out(), &triangle).unwrap();
    assert_eq!(viewports.len(), 300);

    let mut animation = Animation::new(500, 500, Framerate { frames: 24, seconds: 1 }).unwrap();
    assert_eq!(animation.delay(), 4);
    let frames = frames_rayon(20, 20, &zoom_in_and_out(), &triangle, &quartered).unwrap();
    animation.add_frames(frames);
    assert_eq!(animation.frame_count(), 300);
    let bytes = animation.write_animation().unwrap();

    let mut options = gif::DecodeOptions::new();
    options.set_color_output(gif::ColorOutput::RGBA);
    let mut decoder = options.read_info(bytes.as_slice()).unwrap();
    assert_eq!((decoder.width(), decoder.height()), (500, 500));
    let mut count = 0usize;
    while let Some(frame) = decoder.read_next_frame().unwrap() {
        assert_eq!(frame.delay, 4);
        assert_eq!(frame.buffer[0] as usize, expected_tint(count));
        count += 1;
    }
    assert_eq!(count, 300);
}

#[test]
fn full_size_frames_survive_encoding_in_order() {
    let keyframes = [
        Keyframe { viewport: 50u8, index: 0 },
        Keyframe { viewport: 62u8, index: 12 },
    ];
    let mut animation = Animation::new(500, 500, Framerate { frames: 24, seconds: 1 }).unwrap();
    animation.add_frames(frames_rayon(500, 500, &keyframes, &triangle, &quartered).unwrap());
    let bytes = animation.write_animation().unwrap();

    let mut options = gif::DecodeOptions::new();
    options.set_color_output(gif::ColorOutput::RGBA);
    let mut decoder = options.read_info(bytes.as_slice()).unwrap();
    let mut count = 0usize;
    while let Some(frame) = decoder.read_next_frame().unwrap() {
        assert_eq!(frame.delay, 4);
        assert_eq!((frame.width, frame.height), (500, 500));
        assert_eq!(frame.buffer.len(), 1_000_000);
        assert_eq!(&frame.buffer[..4], &[50 + count as u8, 0, 0, 255]);
        assert_eq!(&frame.buffer[999_996..], &[50 + count as u8, 255, 255, 255]);
        count += 1;
    }
    assert_eq!(count, 12);
}
