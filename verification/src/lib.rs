//! Zooming Mandelbrot animations: keyframe interpolation, per-frame
//! rasterisation, ordered fan-in of rendered frames and their assembly into
//! an animated GIF.
//!
//! The arithmetic on complex-plane coordinates is supplied by the caller as
//! closures; everything that decides which frame, which pixel and which slot
//! is decided here.

pub mod animation;
pub mod error;
pub mod escape;
pub mod frame;
pub mod keyframe;
pub mod pixel;
pub mod raster;
pub mod render;
pub mod slots;

pub use crate::animation::{frame_delay, Animation, Framerate};
pub use crate::error::AnimationError;
pub use crate::escape::{calc_pixel, escape_time, Escape, MAX_ITER};
pub use crate::frame::Frame;
pub use crate::keyframe::{get_interpolated_frames, Keyframe};
pub use crate::pixel::{rgba_bytes, Pixel};
pub use crate::raster::draw_frame;
pub use crate::render::{frames_rayon, join_tasks, render_frame};
pub use crate::slots::FrameSlots;
