use crate::error::AnimationError;
use crate::frame::{frame_views, Frame, FrameView};
use vstd::prelude::*;

verus! {

/// The fan-in of a batch of render tasks: one slot per output frame, made
/// before any task runs. A task writes its frame into the slot of its own
/// index, so the frames come out in index order whatever order the tasks
/// finish in.
pub struct FrameSlots {
    slots: Vec<Option<Frame>>,
}

/// What a slot holds, as a view.
pub open spec fn slot_view(slot: Option<Frame>) -> Option<FrameView> {
    match slot {
        Some(frame) => Some(frame@),
        None => None,
    }
}

impl View for FrameSlots {
    type V = Seq<Option<FrameView>>;

    closed spec fn view(&self) -> Seq<Option<FrameView>> {
        Seq::new(self.slots@.len(), |i: int| slot_view(self.slots@[i]))
    }
}

/// `count` slots, none of them filled.
pub open spec fn vacant(count: nat) -> Seq<Option<FrameView>> {
    Seq::new(count, |i: int| None::<FrameView>)
}

/// The slots after the tasks have delivered in the given order of
/// completion: `order[k]` is the index of the task that finished `k`-th, and
/// task `i` delivers `frames[i]`.
pub open spec fn delivered(count: nat, order: Seq<int>, frames: Seq<FrameView>) -> Seq<
    Option<FrameView>,
>
    decreases order.len(),
{
    if order.len() == 0 {
        vacant(count)
    } else {
        delivered(count, order.drop_last(), frames).update(
            order.last(),
            Some(frames[order.last()]),
        )
    }
}

/// After any run of deliveries, a slot holds its own task's frame if that
/// task has finished, and nothing otherwise.
pub proof fn lemma_delivered_slot(order: Seq<int>, frames: Seq<FrameView>, i: int)
    requires
        0 <= i < frames.len(),
        forall|k: int| 0 <= k < order.len() ==> 0 <= #[trigger] order[k] < frames.len(),
    ensures
        delivered(frames.len(), order, frames).len() == frames.len(),
        delivered(frames.len(), order, frames)[i] == if order.contains(i) {
            Some(frames[i])
        } else {
            None
        },
    decreases order.len(),
{
    if order.len() > 0 {
        let earlier = order.drop_last();
        assert forall|k: int| 0 <= k < earlier.len() implies 0 <= #[trigger] earlier[k]
            < frames.len() by {
            assert(earlier[k] == order[k]);
        }
        lemma_delivered_slot(earlier, frames, i);
        if order.last() == i {
            assert(order[order.len() - 1] == i);
        } else if order.contains(i) {
            let k = choose|k: int| 0 <= k < order.len() && order[k] == i;
            assert(earlier[k] == i);
        } else {
            if earlier.contains(i) {
                let k = choose|k: int| 0 <= k < earlier.len() && earlier[k] == i;
                assert(order[k] == i);
            }
        }
    }
}

/// Order-preservation law: once every task has finished, in whatever order
/// of completion, the slots hold the tasks' frames in ascending index order.
pub proof fn lemma_completion_order_is_irrelevant(order: Seq<int>, frames: Seq<FrameView>)
    requires
        forall|k: int| 0 <= k < order.len() ==> 0 <= #[trigger] order[k] < frames.len(),
        forall|i: int| 0 <= i < frames.len() ==> order.contains(i),
    ensures
        delivered(frames.len(), order, frames) == Seq::new(
            frames.len(),
            |i: int| Some(frames[i]),
        ),
{
    let slots = delivered(frames.len(), order, frames);
    let wanted = Seq::new(frames.len(), |i: int| Some(frames[i]));
    if frames.len() == 0 {
        assert(order.len() == 0) by {
            if order.len() > 0 {
                assert(0 <= order[0] < frames.len());
            }
        }
    }
    assert forall|i: int| 0 <= i < frames.len() implies slots[i] == wanted[i] by {
        lemma_delivered_slot(order, frames, i);
    }
    if frames.len() > 0 {
        lemma_delivered_slot(order, frames, 0);
    }
    assert(slots =~= wanted);
}

impl FrameSlots {
    /// One vacant slot for each of `count` frames.
    pub fn new(count: usize) -> (slots: FrameSlots)
        ensures
            slots@ == vacant(count as nat),
    {
        let mut slots: Vec<Option<Frame>> = Vec::new();
        let mut i: usize = 0;
        while i < count
            invariant
                i <= count,
                slots@.len() == i,
                forall|k: int| 0 <= k < i ==> (#[trigger] slots@[k]) is None,
            decreases count - i,
        {
            slots.push(None);
            i = i + 1;
        }
        let slots = FrameSlots { slots };
        assert(slots@ =~= vacant(count as nat));
        slots
    }

    /// The number of slots.
    pub fn len(&self) -> (count: usize)
        ensures
            count == self@.len(),
    {
        self.slots.len()
    }

    /// Delivers the frame of task `index` into its slot. No other slot is
    /// touched.
    pub fn assign(&mut self, index: usize, frame: Frame)
        requires
            index < old(self)@.len(),
        ensures
            final(self)@ == old(self)@.update(index as int, Some(frame@)),
    {
        self.slots.set(index, Some(frame));
        assert(self@ =~= old(self)@.update(index as int, Some(frame@)));
    }

    /// The join barrier: the frames in index order if every slot was
    /// filled. A vacant slot fails the whole batch; no frame is made up in
    /// its place.
    pub fn into_frames(self) -> (result: Result<Vec<Frame>, AnimationError>)
        ensures
            result is Ok <==> forall|i: int| 0 <= i < self@.len() ==> (#[trigger] self@[i]) is Some,
            result matches Ok(frames) ==> frame_views(frames@).len() == self@.len() && forall|
                i: int,
            |
                0 <= i < self@.len() ==> self@[i] == Some(#[trigger] frame_views(frames@)[i]),
            result matches Err(e) ==> e == AnimationError::FrameCreateError,
    {
        let ghost view = self@;
        let FrameSlots { slots } = self;
        let mut frames: Vec<Frame> = Vec::new();
        for slot in it: slots
            invariant
                frames@.len() == it.index(),
                it.seq() == slots@,
                view == self@,
                view.len() == slots@.len(),
                forall|i: int| 0 <= i < slots@.len() ==> #[trigger] view[i] == slot_view(slots@[i]),
                forall|i: int| 0 <= i < it.index() ==> view[i] == Some((#[trigger] frames@[i])@),
        {
            match slot {
                Some(frame) => {
                    frames.push(frame);
                },
                None => {
                    assert(view[it.index()] == slot_view(slots@[it.index()]));
                    return Err(AnimationError::FrameCreateError);
                },
            }
        }
        assert forall|i: int| 0 <= i < view.len() implies (#[trigger] view[i]) is Some by {
            assert(view[i] == Some(frames@[i]@));
        }
        assert forall|i: int| 0 <= i < view.len() implies view[i] == Some(
            #[trigger] frame_views(frames@)[i],
        ) by {
            assert(view[i] == Some(frames@[i]@));
        }
        Ok(frames)
    }
}

} // verus!
