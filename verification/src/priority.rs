//! Which frame goes first: the rules by which a full set of transmit
//! mailboxes gives up a frame, and by which received frames come out.

use crate::frame::FrameView;
use crate::id::Identifier;
use vstd::prelude::*;

verus! {

/// Mailbox `k` holds no frame.
pub open spec fn is_free(slots: Seq<Option<FrameView>>, k: int) -> bool {
    0 <= k < slots.len() && slots[k] is None
}

/// Every mailbox holds a frame.
pub open spec fn is_full(slots: Seq<Option<FrameView>>) -> bool {
    forall|k: int| 0 <= k < slots.len() ==> (#[trigger] slots[k]) is Some
}

/// Mailbox `k` holds a frame, and no mailbox holds one that would lose
/// arbitration against it.
pub open spec fn is_lowest_priority(slots: Seq<Option<FrameView>>, k: int) -> bool {
    &&& 0 <= k < slots.len()
    &&& slots[k] is Some
    &&& forall|j: int|
        0 <= j < slots.len() && (#[trigger] slots[j]) is Some ==> !slots[k]->0.id.outranks(
            slots[j]->0.id,
        )
}

/// Mailbox `k` holds a frame, and no mailbox holds one that would win
/// arbitration against it.
pub open spec fn is_highest_priority(slots: Seq<Option<FrameView>>, k: int) -> bool {
    &&& 0 <= k < slots.len()
    &&& slots[k] is Some
    &&& forall|j: int|
        0 <= j < slots.len() && (#[trigger] slots[j]) is Some ==> !slots[j]->0.id.outranks(
            slots[k]->0.id,
        )
}

/// Mailbox `k` is the first that holds no frame.
pub open spec fn is_first_free(slots: Seq<Option<FrameView>>, k: int) -> bool {
    &&& is_free(slots, k)
    &&& forall|j: int| 0 <= j < k ==> (#[trigger] slots[j]) is Some
}

/// Mailbox `k` is the first among those whose frame is of the lowest priority
/// held.
pub open spec fn is_first_lowest_priority(slots: Seq<Option<FrameView>>, k: int) -> bool {
    &&& is_lowest_priority(slots, k)
    &&& forall|j: int|
        0 <= j < k && (#[trigger] slots[j]) is Some ==> slots[j]->0.id.outranks(slots[k]->0.id)
}

/// Mailbox `k` is the first among those whose frame is of the highest
/// priority held.
pub open spec fn is_first_highest_priority(slots: Seq<Option<FrameView>>, k: int) -> bool {
    &&& is_highest_priority(slots, k)
    &&& forall|j: int|
        0 <= j < k && (#[trigger] slots[j]) is Some ==> slots[k]->0.id.outranks(slots[j]->0.id)
}

/// `frame` went into a mailbox that was free.
pub open spec fn queued(
    before: Seq<Option<FrameView>>,
    frame: FrameView,
    after: Seq<Option<FrameView>>,
) -> bool {
    exists|k: int| #[trigger] is_free(before, k) && after == before.update(k, Some(frame))
}

/// All mailboxes were taken, `frame` wins arbitration against `evicted`, which
/// was of the lowest priority among the frames held, and has taken its
/// mailbox.
pub open spec fn displaced(
    before: Seq<Option<FrameView>>,
    frame: FrameView,
    evicted: FrameView,
    after: Seq<Option<FrameView>>,
) -> bool {
    &&& is_full(before)
    &&& frame.id.outranks(evicted.id)
    &&& exists|k: int|
        {
            &&& #[trigger] is_lowest_priority(before, k)
            &&& before[k] == Some(evicted)
            &&& after == before.update(k, Some(frame))
        }
}

/// All mailboxes are taken, by frames against none of which `frame` wins
/// arbitration.
pub open spec fn blocked(before: Seq<Option<FrameView>>, frame: FrameView) -> bool {
    &&& is_full(before)
    &&& forall|j: int|
        0 <= j < before.len() ==> !frame.id.outranks((#[trigger] before[j])->0.id)
}

/// As [`queued`], into the first mailbox that was free.
pub open spec fn queued_at_first_free(
    before: Seq<Option<FrameView>>,
    frame: FrameView,
    after: Seq<Option<FrameView>>,
) -> bool {
    exists|k: int| #[trigger] is_first_free(before, k) && after == before.update(k, Some(frame))
}

/// As [`displaced`], with `evicted` taken from the first mailbox among those
/// whose frame was of the lowest priority held.
pub open spec fn displaced_first_lowest(
    before: Seq<Option<FrameView>>,
    frame: FrameView,
    evicted: FrameView,
    after: Seq<Option<FrameView>>,
) -> bool {
    &&& is_full(before)
    &&& frame.id.outranks(evicted.id)
    &&& exists|k: int|
        {
            &&& #[trigger] is_first_lowest_priority(before, k)
            &&& before[k] == Some(evicted)
            &&& after == before.update(k, Some(frame))
        }
}

/// `frame` has left for the bus: it was of the highest priority held, in the
/// first mailbox among those with such a frame, and that mailbox is free now.
pub open spec fn sent_first_highest(
    before: Seq<Option<FrameView>>,
    frame: FrameView,
    after: Seq<Option<FrameView>>,
) -> bool {
    exists|k: int|
        {
            &&& #[trigger] is_first_highest_priority(before, k)
            &&& before[k] == Some(frame)
            &&& after == before.update(k, None)
        }
}

/// No mailbox holds a frame.
pub open spec fn is_idle(slots: Seq<Option<FrameView>>) -> bool {
    forall|k: int| 0 <= k < slots.len() ==> (#[trigger] slots[k]) is None
}

/// The frame at position `k` is one against which no frame that waits wins
/// arbitration.
pub open spec fn is_next_to_receive(pending: Seq<FrameView>, k: int) -> bool {
    &&& 0 <= k < pending.len()
    &&& forall|j: int|
        0 <= j < pending.len() ==> !(#[trigger] pending[j]).id.outranks(pending[k].id)
}

/// The frame at position `k` is the oldest of those against which no frame
/// that waits wins arbitration.
pub open spec fn is_first_next_to_receive(pending: Seq<FrameView>, k: int) -> bool {
    &&& is_next_to_receive(pending, k)
    &&& forall|j: int| 0 <= j < k ==> pending[k].id.outranks((#[trigger] pending[j]).id)
}

/// `frame` was taken out of the frames that waited, and was next to be
/// received among them.
pub open spec fn received(before: Seq<FrameView>, frame: FrameView, after: Seq<FrameView>) -> bool {
    exists|k: int|
        {
            &&& #[trigger] is_next_to_receive(before, k)
            &&& before[k] == frame
            &&& after == before.remove(k)
        }
}

/// As [`received`], with the oldest of the frames that were next to be
/// received.
pub open spec fn received_oldest(
    before: Seq<FrameView>,
    frame: FrameView,
    after: Seq<FrameView>,
) -> bool {
    exists|k: int|
        {
            &&& #[trigger] is_first_next_to_receive(before, k)
            &&& before[k] == frame
            &&& after == before.remove(k)
        }
}

/// What a frame that arrives from the bus does to the frames that wait: it
/// joins them at the end if the filter lets its identifier through, and is
/// dropped if not.
pub open spec fn arrival(pending: Seq<FrameView>, accepted: Set<Identifier>, frame: FrameView) -> Seq<
    FrameView,
> {
    if accepted.contains(frame.id) {
        pending.push(frame)
    } else {
        pending
    }
}

/// What happens to a receive buffer while its filter stays as it is: a frame
/// arrives from the bus, or the frame at a position is taken out.
pub enum BufferEvent {
    /// A frame arrives from the bus.
    Arrives(FrameView),
    /// The frame at this position is received.
    Taken(int),
}

/// The frames that wait after one event.
pub open spec fn after_event(
    pending: Seq<FrameView>,
    accepted: Set<Identifier>,
    event: BufferEvent,
) -> Seq<FrameView> {
    match event {
        BufferEvent::Arrives(frame) => arrival(pending, accepted, frame),
        BufferEvent::Taken(k) => if 0 <= k < pending.len() {
            pending.remove(k)
        } else {
            pending
        },
    }
}

/// The frames that wait after a row of events, the first event first.
pub open spec fn after_events(
    pending: Seq<FrameView>,
    accepted: Set<Identifier>,
    events: Seq<BufferEvent>,
) -> Seq<FrameView>
    decreases events.len(),
{
    if events.len() == 0 {
        pending
    } else {
        after_event(after_events(pending, accepted, events.drop_last()), accepted, events.last())
    }
}

/// A frame that is received was among the frames that waited, and its
/// leaving is an event of the buffer.
pub proof fn lemma_received_frame_waited(
    before: Seq<FrameView>,
    accepted: Set<Identifier>,
    frame: FrameView,
    after: Seq<FrameView>,
)
    requires
        received(before, frame, after),
    ensures
        before.contains(frame),
        exists|k: int| after == #[trigger] after_event(before, accepted, BufferEvent::Taken(k)),
{
    let k = choose|k: int|
        {
            &&& #[trigger] is_next_to_receive(before, k)
            &&& before[k] == frame
            &&& after == before.remove(k)
        };
    assert(before[k] == frame);
    assert(after == after_event(before, accepted, BufferEvent::Taken(k)));
}

/// Once a filter is set, whatever arrives and is received afterwards, a frame
/// that waits to be received is one that the filter lets through, or one that
/// waited already when the filter was set.
pub proof fn lemma_filter_governs_later_frames(
    pending: Seq<FrameView>,
    accepted: Set<Identifier>,
    events: Seq<BufferEvent>,
    frame: FrameView,
)
    requires
        after_events(pending, accepted, events).contains(frame),
    ensures
        accepted.contains(frame.id) || pending.contains(frame),
    decreases events.len(),
{
    if events.len() > 0 {
        let earlier = after_events(pending, accepted, events.drop_last());
        let now = after_event(earlier, accepted, events.last());
        let at = choose|i: int| 0 <= i < now.len() && now[i] == frame;
        match events.last() {
            BufferEvent::Arrives(arrived) => {
                if accepted.contains(arrived.id) && at == earlier.len() {
                    assert(frame == arrived);
                } else {
                    assert(earlier[at] == frame);
                    lemma_filter_governs_later_frames(pending, accepted, events.drop_last(), frame);
                }
            },
            BufferEvent::Taken(k) => {
                if 0 <= k < earlier.len() {
                    if at < k {
                        assert(earlier[at] == frame);
                    } else {
                        assert(earlier[at + 1] == frame);
                    }
                } else {
                    assert(earlier[at] == frame);
                }
                lemma_filter_governs_later_frames(pending, accepted, events.drop_last(), frame);
            },
        }
    }
}

/// A frame is never kept out of full mailboxes by a frame against which it
/// wins arbitration.
pub proof fn lemma_higher_priority_is_not_blocked(
    before: Seq<Option<FrameView>>,
    frame: FrameView,
    k: int,
)
    requires
        0 <= k < before.len(),
        before[k] matches Some(held) && frame.id.outranks(held.id),
    ensures
        !blocked(before, frame),
{
}

/// What `transmit` does to given mailboxes with a given frame is one of
/// three things and never two of them: the frame is queued, or it displaces
/// another, or the call would block.
pub proof fn lemma_outcomes_exclude_each_other(
    before: Seq<Option<FrameView>>,
    frame: FrameView,
    evicted: FrameView,
    after_queued: Seq<Option<FrameView>>,
    after_displaced: Seq<Option<FrameView>>,
)
    ensures
        !(queued(before, frame, after_queued) && is_full(before)),
        !(displaced(before, frame, evicted, after_displaced) && blocked(before, frame)),
{
    if displaced(before, frame, evicted, after_displaced) && blocked(before, frame) {
        let k = choose|k: int|
            {
                &&& #[trigger] is_lowest_priority(before, k)
                &&& before[k] == Some(evicted)
                &&& after_displaced == before.update(k, Some(frame))
            };
        assert(!frame.id.outranks(before[k]->0.id));
    }
    if queued(before, frame, after_queued) && is_full(before) {
        let k = choose|k: int|
            #[trigger] is_free(before, k) && after_queued == before.update(k, Some(frame));
        assert(before[k] is Some);
    }
}

} // verus!
