use crate::error::AnimationError;
use crate::frame::{frame_views, quantized, Frame, FrameView};
use crate::keyframe::{get_interpolated_frames, is_interpolation, well_ordered, Keyframe};
use crate::pixel::{rgba_of, Pixel};
use crate::raster::{draw_frame, is_drawing};
use rayon::iter::{IntoParallelRefIterator, ParallelIterator};
use vstd::prelude::*;

verus! {

/// `frame` is a rendering of `viewport`: the quantised form of a drawing of
/// that viewport at `width` x `height`.
pub open spec fn is_render<V, S: Fn(&V, u32, u32, u32, u32) -> Pixel>(
    width: u16,
    height: u16,
    viewport: V,
    shade: &S,
    frame: FrameView,
) -> bool {
    &&& frame.width == width
    &&& frame.height == height
    &&& frame.encodable()
    &&& exists|pixels: Seq<Pixel>|
        #![trigger is_drawing(width as u32, height as u32, viewport, shade, pixels)]
        is_drawing(width as u32, height as u32, viewport, shade, pixels) && frame == quantized(
            width,
            height,
            rgba_of(pixels),
        )
}

/// What a render task hands back for `keyframe`: always a frame, and that
/// frame a rendering of the keyframe's viewport.
pub open spec fn is_task_result<V, S: Fn(&V, u32, u32, u32, u32) -> Pixel>(
    width: u16,
    height: u16,
    keyframe: Keyframe<V>,
    shade: &S,
    task: Result<Frame, AnimationError>,
) -> bool {
    task matches Ok(frame) && is_render(width, height, keyframe.viewport, shade, frame@)
}

/// One render task: draws the keyframe's viewport pixel by pixel and
/// quantises the buffer into a frame. The buffer always fits, so the task
/// never fails.
pub fn render_frame<V, S: Fn(&V, u32, u32, u32, u32) -> Pixel>(
    width: u16,
    height: u16,
    keyframe: &Keyframe<V>,
    shade: &S,
) -> (task: Result<Frame, AnimationError>)
    requires
        forall|x: u32, y: u32|
            x < width && y < height ==> #[trigger] shade.requires(
                (&keyframe.viewport, x, y, width as u32, height as u32),
            ),
    ensures
        is_task_result(width, height, *keyframe, shade, task),
{
    let pixels = draw_frame(width as u32, height as u32, keyframe, shade);
    Frame::from_pixels(width, height, pixels)
}

/// Calls rayon's `par_iter`, `map` and `collect` to run one render task per
/// keyframe on the worker pool. Collecting an indexed parallel iterator into
/// a vector keeps the order of the items, whichever worker finishes first:
/// the result has one entry per keyframe, and entry `i` is what `render_frame`
/// returned for keyframe `i`.
#[verifier::external_body]
fn par_render<V: Sync, S: Fn(&V, u32, u32, u32, u32) -> Pixel + Sync>(
    width: u16,
    height: u16,
    keyframes: &Vec<Keyframe<V>>,
    shade: &S,
) -> (tasks: Vec<Result<Frame, AnimationError>>)
    requires
        forall|v: &V, x: u32, y: u32|
            x < width && y < height ==> #[trigger] shade.requires(
                (v, x, y, width as u32, height as u32),
            ),
    ensures
        tasks@.len() == keyframes@.len(),
        forall|i: int|
            0 <= i < tasks@.len() ==> is_task_result(
                width,
                height,
                keyframes@[i],
                shade,
                #[trigger] tasks@[i],
            ),
{
    keyframes.par_iter().map(|keyframe| render_frame(width, height, keyframe, shade)).collect()
}

/// `frames` are the renderings of `viewports`, slot for slot.
pub open spec fn are_renders<V, S: Fn(&V, u32, u32, u32, u32) -> Pixel>(
    width: u16,
    height: u16,
    viewports: Seq<Keyframe<V>>,
    shade: &S,
    frames: Seq<FrameView>,
) -> bool {
    &&& frames.len() == viewports.len()
    &&& forall|i: int|
        0 <= i < frames.len() ==> is_render(
            width,
            height,
            viewports[i].viewport,
            shade,
            #[trigger] frames[i],
        )
}

/// Renders the whole animation on rayon's worker pool: interpolates the
/// keyframes, renders every interpolated viewport as a task of its own and
/// collects the frames in viewport order.
pub fn frames_rayon<
    V: Sync + Copy,
    L: Fn(&V, &V, usize, usize) -> V,
    S: Fn(&V, u32, u32, u32, u32) -> Pixel + Sync,
>(width: u16, height: u16, keyframes: &[Keyframe<V>], blend: &L, shade: &S) -> (result: Result<
    Vec<Frame>,
    AnimationError,
>)
    requires
        forall|a: &V, b: &V, num: usize, den: usize|
            0 < num < den ==> #[trigger] blend.requires((a, b, num, den)),
        forall|v: &V, x: u32, y: u32|
            x < width && y < height ==> #[trigger] shade.requires(
                (v, x, y, width as u32, height as u32),
            ),
    ensures
        result is Ok <==> well_ordered(keyframes@),
        result matches Ok(frames) ==> exists|viewports: Seq<Keyframe<V>>|
            #![trigger is_interpolation(blend, keyframes@, viewports)]
            is_interpolation(blend, keyframes@, viewports) && are_renders(
                width,
                height,
                viewports,
                shade,
                frame_views(frames@),
            ),
        result matches Err(e) ==> e == AnimationError::ConfigurationError,
{
    let viewports = match get_interpolated_frames(keyframes, blend) {
        Ok(viewports) => viewports,
        Err(e) => {
            return Err(e);
        },
    };
    let tasks = par_render(width, height, &viewports, shade);
    let result = join_tasks(tasks);
    proof {
        assert forall|i: int| 0 <= i < tasks@.len() implies (#[trigger] tasks@[i]) is Ok by {
            assert(is_task_result(width, height, viewports@[i], shade, tasks@[i]));
        }
        let frames = result->Ok_0;
        assert forall|i: int| 0 <= i < frames@.len() implies is_render(
            width,
            height,
            viewports@[i].viewport,
            shade,
            #[trigger] frame_views(frames@)[i],
        ) by {
            assert(is_task_result(width, height, viewports@[i], shade, tasks@[i]));
            assert(tasks@[i] == Ok::<Frame, AnimationError>(frames@[i]));
        }
        assert(are_renders(width, height, viewports@, shade, frame_views(frames@)));
    }
    result
}

/// The join barrier: the frames of all tasks in task order, or the error of
/// the first task that failed. No frame is dropped or replaced.
pub fn join_tasks(tasks: Vec<Result<Frame, AnimationError>>) -> (result: Result<
    Vec<Frame>,
    AnimationError,
>)
    ensures
        result is Ok <==> forall|i: int| 0 <= i < tasks@.len() ==> (#[trigger] tasks@[i]) is Ok,
        result matches Ok(frames) ==> frames@.len() == tasks@.len() && forall|i: int|
            0 <= i < tasks@.len() ==> tasks@[i] == Ok::<Frame, AnimationError>(
                #[trigger] frames@[i],
            ),
        result matches Err(e) ==> exists|i: int|
            0 <= i < tasks@.len() && #[trigger] tasks@[i] == Err::<Frame, AnimationError>(e)
                && forall|j: int| 0 <= j < i ==> (#[trigger] tasks@[j]) is Ok,
{
    let mut frames: Vec<Frame> = Vec::new();
    for task in it: tasks
        invariant
            frames@.len() == it.index(),
            it.seq() == tasks@,
            forall|i: int|
                0 <= i < it.index() ==> tasks@[i] == Ok::<Frame, AnimationError>(
                    #[trigger] frames@[i],
                ),
    {
        match task {
            Ok(frame) => {
                frames.push(frame);
            },
            Err(e) => {
                assert(tasks@[it.index()] == Err::<Frame, AnimationError>(e));
                assert forall|j: int| 0 <= j < it.index() implies (#[trigger] tasks@[j]) is Ok by {
                    assert(tasks@[j] == Ok::<Frame, AnimationError>(frames@[j]));
                }
                return Err(e);
            },
        }
    }
    assert forall|i: int| 0 <= i < tasks@.len() implies (#[trigger] tasks@[i]) is Ok by {
        assert(tasks@[i] == Ok::<Frame, AnimationError>(frames@[i]));
    }
    Ok(frames)
}

} // verus!
