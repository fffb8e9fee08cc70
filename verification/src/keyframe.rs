use crate::error::AnimationError;
use vstd::prelude::*;

verus! {

/// A viewport over the complex plane, pinned to the output frame `index`.
///
/// The viewport itself is opaque here: it is copied, and handed to the blend
/// and shade functions that the caller supplies.
#[derive(Debug, Clone, Copy)]
pub struct Keyframe<V> {
    pub viewport: V,
    pub index: usize,
}

/// A keyframe list can be interpolated: it has at least two keyframes and
/// their frame indices strictly increase.
pub open spec fn well_ordered<V>(keyframes: Seq<Keyframe<V>>) -> bool {
    &&& keyframes.len() >= 2
    &&& forall|j: int|
        0 <= j < keyframes.len() - 1 ==> (#[trigger] keyframes[j]).index < keyframes[j + 1].index
}

/// The number of frames between the first and the last keyframe, counted
/// window by window: each pair of neighbours contributes the distance of
/// their indices.
pub open spec fn frame_count<V>(keyframes: Seq<Keyframe<V>>) -> int
    decreases keyframes.len(),
{
    if keyframes.len() < 2 {
        0
    } else {
        frame_count(keyframes.drop_last()) + (keyframes[keyframes.len() - 1].index
            - keyframes[keyframes.len() - 2].index)
    }
}

/// `frame` is the frame of `index` in the window that starts at `from` and
/// ends before `to`. It carries `index`. At the window's first index the
/// weight is zero and the viewport is `from`'s own; at every later index it
/// is a blend of the two viewports with weight
/// `(index - from.index) / (to.index - from.index)`, handed to `blend` as
/// numerator and denominator.
pub open spec fn interpolated<V, L: Fn(&V, &V, usize, usize) -> V>(
    blend: &L,
    from: Keyframe<V>,
    to: Keyframe<V>,
    index: int,
    frame: Keyframe<V>,
) -> bool {
    &&& frame.index == index
    &&& if index == from.index {
        frame.viewport == from.viewport
    } else {
        blend.ensures(
            (
                &from.viewport,
                &to.viewport,
                (index - from.index) as usize,
                (to.index - from.index) as usize,
            ),
            frame.viewport,
        )
    }
}

/// `frames` is the dense expansion of `keyframes`: one frame for every index
/// from the first keyframe's (inclusive) to the last keyframe's (exclusive),
/// in index order, each interpolated inside the window that holds its index.
pub open spec fn is_interpolation<V, L: Fn(&V, &V, usize, usize) -> V>(
    blend: &L,
    keyframes: Seq<Keyframe<V>>,
    frames: Seq<Keyframe<V>>,
) -> bool {
    &&& frames.len() == frame_count(keyframes)
    &&& forall|j: int, k: int|
        #![trigger keyframes[j], frames[k]]
        0 <= j < keyframes.len() - 1 && 0 <= k < frames.len() && keyframes[j].index
            <= keyframes[0].index + k < keyframes[j + 1].index ==> interpolated(
            blend,
            keyframes[j],
            keyframes[j + 1],
            keyframes[0].index + k,
            frames[k],
        )
}

/// In a well-ordered list, indices grow with the position.
pub proof fn lemma_indices_increase<V>(keyframes: Seq<Keyframe<V>>, i: int, j: int)
    requires
        well_ordered(keyframes),
        0 <= i <= j < keyframes.len(),
    ensures
        keyframes[i].index <= keyframes[j].index,
        i < j ==> keyframes[i].index < keyframes[j].index,
    decreases j - i,
{
    if i < j {
        lemma_indices_increase(keyframes, i, j - 1);
        assert(keyframes[j - 1].index < keyframes[j - 1 + 1].index);
    }
}

/// Frame-count law: the frames of all windows together are as many as the
/// distance from the first keyframe's index to the last one's. For keyframes
/// at 0, 100 and 300 that is 100 + 200 = 300.
pub proof fn lemma_frame_count<V>(keyframes: Seq<Keyframe<V>>)
    requires
        keyframes.len() >= 1,
    ensures
        frame_count(keyframes) == keyframes.last().index - keyframes[0].index,
    decreases keyframes.len(),
{
    if keyframes.len() >= 2 {
        lemma_frame_count(keyframes.drop_last());
    }
}

/// Interpolation law: the frame of every index inside a window exists, sits
/// at its index's distance from the first keyframe, and is the window's
/// first keyframe at weight zero and the blend of its two keyframes with
/// weight `(index - a.index) / (b.index - a.index)` after that.
pub proof fn lemma_frame_in_window<V, L: Fn(&V, &V, usize, usize) -> V>(
    blend: &L,
    keyframes: Seq<Keyframe<V>>,
    frames: Seq<Keyframe<V>>,
    j: int,
    index: int,
)
    requires
        well_ordered(keyframes),
        is_interpolation(blend, keyframes, frames),
        0 <= j < keyframes.len() - 1,
        keyframes[j].index <= index < keyframes[j + 1].index,
    ensures
        0 <= index - keyframes[0].index < frames.len(),
        interpolated(
            blend,
            keyframes[j],
            keyframes[j + 1],
            index,
            frames[index - keyframes[0].index],
        ),
{
    lemma_frame_count(keyframes);
    lemma_indices_increase(keyframes, 0, j);
    lemma_indices_increase(keyframes, j + 1, keyframes.len() - 1);
    let k = index - keyframes[0].index;
    assert(keyframes[j].index <= keyframes[0].index + k < keyframes[j + 1].index);
}

/// Interpolation exactness: the frame at a keyframe's own index is that
/// keyframe, viewport and index, whatever the blend function does elsewhere.
/// This holds of every keyframe but the last, whose index no window
/// includes.
pub proof fn lemma_keyframe_reproduced<V, L: Fn(&V, &V, usize, usize) -> V>(
    blend: &L,
    keyframes: Seq<Keyframe<V>>,
    frames: Seq<Keyframe<V>>,
    j: int,
)
    requires
        well_ordered(keyframes),
        is_interpolation(blend, keyframes, frames),
        0 <= j < keyframes.len() - 1,
    ensures
        0 <= keyframes[j].index - keyframes[0].index < frames.len(),
        frames[keyframes[j].index - keyframes[0].index] == keyframes[j],
{
    lemma_frame_in_window(blend, keyframes, frames, j, keyframes[j].index as int);
}

impl<V: Copy> Keyframe<V> {
    /// The frame at `idx` in the window from `self` to `other`: `self`'s own
    /// viewport at `self.index`, where the weight is zero, and the blend of
    /// the two viewports at every later index.
    pub fn interpolate<L: Fn(&V, &V, usize, usize) -> V>(
        &self,
        other: &Keyframe<V>,
        idx: usize,
        blend: &L,
    ) -> (frame: Keyframe<V>)
        requires
            self.index <= idx,
            self.index < other.index,
            self.index < idx ==> blend.requires(
                (
                    &self.viewport,
                    &other.viewport,
                    (idx - self.index) as usize,
                    (other.index - self.index) as usize,
                ),
            ),
        ensures
            interpolated(blend, *self, *other, idx as int, frame),
    {
        let viewport = if idx == self.index {
            self.viewport
        } else {
            blend(&self.viewport, &other.viewport, idx - self.index, other.index - self.index)
        };
        Keyframe { viewport, index: idx }
    }
}

/// Whether the keyframes can be interpolated at all: tests every pair of
/// neighbours.
pub fn keyframes_in_order<V>(keyframes: &[Keyframe<V>]) -> (ok: bool)
    ensures
        ok == well_ordered(keyframes@),
{
    if keyframes.len() < 2 {
        return false;
    }
    let mut j: usize = 0;
    while j < keyframes.len() - 1
        invariant
            keyframes@.len() >= 2,
            0 <= j <= keyframes@.len() - 1,
            forall|i: int| 0 <= i < j ==> (#[trigger] keyframes@[i]).index < keyframes@[i + 1].index,
        decreases keyframes@.len() - j,
    {
        if keyframes[j].index >= keyframes[j + 1].index {
            return false;
        }
        j = j + 1;
    }
    true
}

/// Expands the keyframes into one frame per output index.
///
/// Neighbouring keyframes form windows. A window from `a` to `b` yields the
/// frames `a.index`, ..., `b.index - 1`; the index of the very last keyframe
/// is the exclusive end of the last window and yields no frame of its own.
/// The first frame of a window is its first keyframe, unchanged. Lists that
/// are not well ordered are rejected before `blend` is called.
pub fn get_interpolated_frames<V: Copy, L: Fn(&V, &V, usize, usize) -> V>(
    keyframes: &[Keyframe<V>],
    blend: &L,
) -> (result: Result<Vec<Keyframe<V>>, AnimationError>)
    requires
        forall|a: &V, b: &V, num: usize, den: usize|
            0 < num < den ==> #[trigger] blend.requires((a, b, num, den)),
    ensures
        result is Ok <==> well_ordered(keyframes@),
        result matches Ok(frames) ==> is_interpolation(blend, keyframes@, frames@),
        result matches Err(e) ==> e == AnimationError::ConfigurationError,
{
    if !keyframes_in_order(keyframes) {
        return Err(AnimationError::ConfigurationError);
    }
    let first: usize = keyframes[0].index;
    let mut frames: Vec<Keyframe<V>> = Vec::new();
    let mut w: usize = 0;
    while w < keyframes.len() - 1
        invariant
            well_ordered(keyframes@),
            first == keyframes@[0].index,
            0 <= w <= keyframes@.len() - 1,
            frames@.len() == keyframes@[w as int].index - first,
            forall|a: &V, b: &V, num: usize, den: usize|
                0 < num < den ==> #[trigger] blend.requires((a, b, num, den)),
            forall|j: int, k: int|
                #![trigger keyframes@[j], frames@[k]]
                0 <= j < w && 0 <= k < frames@.len() && keyframes@[j].index <= first + k
                    < keyframes@[j + 1].index ==> interpolated(
                    blend,
                    keyframes@[j],
                    keyframes@[j + 1],
                    first + k,
                    frames@[k],
                ),
        decreases keyframes@.len() - w,
    {
        let start = &keyframes[w];
        let end = &keyframes[w + 1];
        proof {
            lemma_indices_increase(keyframes@, 0, w as int);
            assert(keyframes@[w as int].index < keyframes@[w as int + 1].index);
        }
        let ghost done = frames@;
        let mut idx: usize = start.index;
        while idx < end.index
            invariant
                *start == keyframes@[w as int],
                *end == keyframes@[w as int + 1],
                first <= start.index <= idx <= end.index,
                start.index < end.index,
                done.len() == start.index - first,
                frames@.len() == idx - first,
                forall|a: &V, b: &V, num: usize, den: usize|
                    0 < num < den ==> #[trigger] blend.requires((a, b, num, den)),
                forall|k: int| 0 <= k < done.len() ==> #[trigger] frames@[k] == done[k],
                forall|k: int|
                    done.len() <= k < frames@.len() ==> interpolated(
                        blend,
                        *start,
                        *end,
                        first + k,
                        #[trigger] frames@[k],
                    ),
            decreases end.index - idx,
        {
            let frame = start.interpolate(end, idx, blend);
            frames.push(frame);
            idx = idx + 1;
        }
        proof {
            assert forall|j: int, k: int|
                #![trigger keyframes@[j], frames@[k]]
                0 <= j < w + 1 && 0 <= k < frames@.len() && keyframes@[j].index <= first + k
                    < keyframes@[j + 1].index implies interpolated(
                blend,
                keyframes@[j],
                keyframes@[j + 1],
                first + k,
                frames@[k],
            ) by {
                if j < w {
                    lemma_indices_increase(keyframes@, j + 1, w as int);
                    assert(k < done.len());
                    assert(frames@[k] == done[k]);
                    assert(interpolated(
                        blend,
                        keyframes@[j],
                        keyframes@[j + 1],
                        first + k,
                        done[k],
                    ));
                } else {
                    assert(k >= done.len());
                }
            }
        }
        w = w + 1;
    }
    proof {
        lemma_frame_count(keyframes@);
    }
    Ok(frames)
}

} // verus!
