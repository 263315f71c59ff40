//! A controller in memory: transmit mailboxes, a receive buffer and a filter.

use crate::filter::{AcceptanceFilter, Filter};
use crate::frame::{CanFrame, Frame, FrameView};
use crate::id::{CanId, Identifier};
use crate::interface::{Interface, Receiver, Transmitter};
use crate::priority::{
    arrival, displaced_first_lowest, is_first_free, is_first_highest_priority,
    is_first_lowest_priority, is_first_next_to_receive, is_full, is_idle, queued_at_first_free,
    received_oldest, sent_first_highest,
};
use core::convert::Infallible;
use vstd::prelude::*;

verus! {

/// What a mailbox holds, as the frame it stands for.
pub open spec fn slot_view(slot: Option<CanFrame>) -> Option<FrameView> {
    match slot {
        Some(frame) => Some(frame@),
        None => None,
    }
}

/// What a row of mailboxes holds.
pub open spec fn slot_views(slots: Seq<Option<CanFrame>>) -> Seq<Option<FrameView>> {
    Seq::new(slots.len(), |k: int| slot_view(slots[k]))
}

/// The frames that a row of frames stands for.
pub open spec fn frame_views(frames: Seq<CanFrame>) -> Seq<FrameView> {
    Seq::new(frames.len(), |k: int| frames[k]@)
}

/// The first mailbox that holds no frame, if there is one.
pub fn first_free(slots: &[Option<CanFrame>]) -> (r: Option<usize>)
    ensures
        match r {
            Some(k) => is_first_free(slot_views(slots@), k as int),
            None => is_full(slot_views(slots@)),
        },
{
    let mut i: usize = 0;
    while i < slots.len()
        invariant
            i <= slots@.len(),
            forall|j: int| 0 <= j < i ==> (#[trigger] slots@[j]) is Some,
        decreases slots@.len() - i,
    {
        if slots[i].is_none() {
            return Some(i);
        }
        i += 1;
    }
    None
}

/// The first of the mailboxes whose frame is of the lowest priority held, if
/// any mailbox holds a frame.
pub fn lowest_priority(slots: &[Option<CanFrame>]) -> (r: Option<usize>)
    ensures
        match r {
            Some(k) => is_first_lowest_priority(slot_views(slots@), k as int),
            None => is_idle(slot_views(slots@)),
        },
{
    let mut found: Option<usize> = None;
    let mut worst: u32 = 0;
    let mut i: usize = 0;
    while i < slots.len()
        invariant
            i <= slots@.len(),
            match found {
                Some(k) => {
                    &&& k < i
                    &&& slots@[k as int] is Some
                    &&& worst == slots@[k as int]->0@.id.arbitration_key()
                    &&& forall|j: int|
                        0 <= j < i && (#[trigger] slots@[j]) is Some ==> {
                            &&& slots@[j]->0@.id.arbitration_key() <= worst
                            &&& j < k ==> slots@[j]->0@.id.arbitration_key() < worst
                        }
                },
                None => forall|j: int| 0 <= j < i ==> (#[trigger] slots@[j]) is None,
            },
        decreases slots@.len() - i,
    {
        match &slots[i] {
            Some(frame) => {
                let key = frame.id().arbitration_key();
                if found.is_none() || key > worst {
                    found = Some(i);
                    worst = key;
                }
            },
            None => {},
        }
        i += 1;
    }
    found
}

/// The first of the mailboxes whose frame is of the highest priority held, if
/// any mailbox holds a frame.
pub fn highest_priority(slots: &[Option<CanFrame>]) -> (r: Option<usize>)
    ensures
        match r {
            Some(k) => is_first_highest_priority(slot_views(slots@), k as int),
            None => is_idle(slot_views(slots@)),
        },
{
    let mut found: Option<usize> = None;
    let mut best: u32 = 0;
    let mut i: usize = 0;
    while i < slots.len()
        invariant
            i <= slots@.len(),
            match found {
                Some(k) => {
                    &&& k < i
                    &&& slots@[k as int] is Some
                    &&& best == slots@[k as int]->0@.id.arbitration_key()
                    &&& forall|j: int|
                        0 <= j < i && (#[trigger] slots@[j]) is Some ==> {
                            &&& slots@[j]->0@.id.arbitration_key() >= best
                            &&& j < k ==> slots@[j]->0@.id.arbitration_key() > best
                        }
                },
                None => forall|j: int| 0 <= j < i ==> (#[trigger] slots@[j]) is None,
            },
        decreases slots@.len() - i,
    {
        match &slots[i] {
            Some(frame) => {
                let key = frame.id().arbitration_key();
                if found.is_none() || key < best {
                    found = Some(i);
                    best = key;
                }
            },
            None => {},
        }
        i += 1;
    }
    found
}

/// The oldest of the frames of the highest priority that wait, if any frame
/// waits.
pub fn next_to_receive(pending: &[CanFrame]) -> (r: Option<usize>)
    ensures
        match r {
            Some(k) => is_first_next_to_receive(frame_views(pending@), k as int),
            None => pending@.len() == 0,
        },
{
    if pending.len() == 0 {
        return None;
    }
    let mut found: usize = 0;
    let mut best: u32 = pending[0].id().arbitration_key();
    let mut i: usize = 1;
    while i < pending.len()
        invariant
            1 <= i <= pending@.len(),
            found < i,
            best == pending@[found as int]@.id.arbitration_key(),
            forall|j: int|
                0 <= j < i ==> {
                    &&& (#[trigger] pending@[j])@.id.arbitration_key() >= best
                    &&& j < found ==> pending@[j]@.id.arbitration_key() > best
                },
        decreases pending@.len() - i,
    {
        let key = pending[i].id().arbitration_key();
        if key < best {
            found = i;
            best = key;
        }
        i += 1;
    }
    Some(found)
}

/// What a [`Controller`] holds.
pub struct ControllerView {
    /// The transmit mailboxes, each with the frame that it holds.
    pub mailboxes: Seq<Option<FrameView>>,
    /// The frames that have arrived and wait to be received, oldest first.
    pub pending: Seq<FrameView>,
    /// The identifiers that the filter lets in.
    pub accepted: Set<Identifier>,
}

/// A controller that keeps its frames in memory. What a bus does to a
/// controller is done to this one by calls: [`Controller::deliver`] brings a
/// frame in, [`Controller::send_next`] takes one out.
#[derive(Debug)]
pub struct Controller {
    tx: Vec<Option<CanFrame>>,
    rx: Vec<CanFrame>,
    filter: AcceptanceFilter,
}

impl Controller {
    /// What the controller holds.
    pub closed spec fn view(&self) -> ControllerView {
        ControllerView {
            mailboxes: slot_views(self.tx@),
            pending: frame_views(self.rx@),
            accepted: self.filter@,
        }
    }

    /// A controller with `mailboxes` transmit mailboxes, all free, with no
    /// frame received and a filter that lets every frame in.
    pub fn new(mailboxes: usize) -> (c: Controller)
        ensures
            c@.mailboxes == Seq::new(mailboxes as nat, |k: int| None::<FrameView>),
            c@.pending == Seq::<FrameView>::empty(),
            c@.accepted == Set::<Identifier>::full(),
    {
        let mut tx: Vec<Option<CanFrame>> = Vec::new();
        let mut i: usize = 0;
        while i < mailboxes
            invariant
                i <= mailboxes,
                tx@.len() == i,
                forall|j: int| 0 <= j < i ==> (#[trigger] tx@[j]) is None,
            decreases mailboxes - i,
        {
            tx.push(None);
            i += 1;
        }
        let c = Controller { tx, rx: Vec::new(), filter: AcceptanceFilter::accept_all() };
        assert(c@.mailboxes =~= Seq::new(mailboxes as nat, |k: int| None::<FrameView>));
        assert(c@.pending =~= Seq::<FrameView>::empty());
        c
    }

    /// A frame arrives from the bus: it joins the frames that wait if the
    /// filter lets its identifier through, and is dropped if not. Says
    /// whether it was let through.
    pub fn deliver(&mut self, frame: CanFrame) -> (taken: bool)
        ensures
            taken == old(self)@.accepted.contains(frame@.id),
            final(self)@.pending == arrival(old(self)@.pending, old(self)@.accepted, frame@),
            final(self)@.accepted == old(self)@.accepted,
            final(self)@.mailboxes == old(self)@.mailboxes,
    {
        if self.filter.matches(&frame.id()) {
            self.rx.push(frame);
            assert(self@.pending =~= old(self)@.pending.push(frame@));
            true
        } else {
            false
        }
    }

    /// The bus is free: the frame of the highest priority held leaves its
    /// mailbox, the first such mailbox if several hold one. Nothing leaves
    /// if no mailbox holds a frame.
    pub fn send_next(&mut self) -> (r: Option<CanFrame>)
        ensures
            match r {
                Some(frame) => sent_first_highest(
                    old(self)@.mailboxes,
                    frame@,
                    final(self)@.mailboxes,
                ),
                None => {
                    &&& is_idle(old(self)@.mailboxes)
                    &&& final(self)@.mailboxes == old(self)@.mailboxes
                },
            },
            final(self)@.pending == old(self)@.pending,
            final(self)@.accepted == old(self)@.accepted,
    {
        match highest_priority(self.tx.as_slice()) {
            Some(k) => {
                let frame = self.tx[k].unwrap();
                self.tx[k] = None;
                assert(self@.mailboxes =~= old(self)@.mailboxes.update(k as int, None));
                assert(is_first_highest_priority(old(self)@.mailboxes, k as int));
                Some(frame)
            },
            None => None,
        }
    }
}

impl Interface for Controller {
    type Id = CanId;

    type Frame = CanFrame;

    type Error = Infallible;

    type Filter = AcceptanceFilter;
}

impl Transmitter for Controller {
    open spec fn mailboxes(&self) -> Seq<Option<FrameView>> {
        self@.mailboxes
    }

    /// The free mailbox taken is the first one; the frame evicted is the
    /// first of the lowest priority held. No error of another kind comes
    /// back.
    fn transmit(&mut self, frame: &CanFrame) -> (r: nb::Result<Option<CanFrame>, Infallible>)
        ensures
            match r {
                Ok(None) => queued_at_first_free(
                    old(self)@.mailboxes,
                    frame@,
                    final(self)@.mailboxes,
                ),
                Ok(Some(evicted)) => displaced_first_lowest(
                    old(self)@.mailboxes,
                    frame@,
                    evicted@,
                    final(self)@.mailboxes,
                ),
                Err(e) => e is WouldBlock,
            },
            final(self)@.pending == old(self)@.pending,
            final(self)@.accepted == old(self)@.accepted,
    {
        match first_free(self.tx.as_slice()) {
            Some(k) => {
                self.tx[k] = Some(*frame);
                assert(self@.mailboxes =~= old(self)@.mailboxes.update(k as int, Some(frame@)));
                assert(is_first_free(old(self)@.mailboxes, k as int));
                Ok(None)
            },
            None => match lowest_priority(self.tx.as_slice()) {
                Some(k) => {
                    let resident = self.tx[k].unwrap();
                    if frame.id().arbitration_key() < resident.id().arbitration_key() {
                        self.tx[k] = Some(*frame);
                        assert(self@.mailboxes =~= old(self)@.mailboxes.update(
                            k as int,
                            Some(frame@),
                        ));
                        assert(is_first_lowest_priority(old(self)@.mailboxes, k as int));
                        Ok(Some(resident))
                    } else {
                        Err(nb::Error::WouldBlock)
                    }
                },
                None => Err(nb::Error::WouldBlock),
            },
        }
    }
}

impl Receiver for Controller {
    open spec fn pending(&self) -> Seq<FrameView> {
        self@.pending
    }

    open spec fn accepted(&self) -> Set<Identifier> {
        self@.accepted
    }

    /// Of several frames of the highest priority the oldest comes out. No
    /// error of another kind comes back.
    fn receive(&mut self) -> (r: nb::Result<CanFrame, Infallible>)
        ensures
            match r {
                Ok(frame) => received_oldest(old(self)@.pending, frame@, final(self)@.pending),
                Err(e) => e is WouldBlock,
            },
            final(self)@.mailboxes == old(self)@.mailboxes,
    {
        match next_to_receive(self.rx.as_slice()) {
            Some(k) => {
                let frame = self.rx.remove(k);
                assert(self@.pending =~= old(self)@.pending.remove(k as int));
                assert(is_first_next_to_receive(old(self)@.pending, k as int));
                Ok(frame)
            },
            None => Err(nb::Error::WouldBlock),
        }
    }

    fn set_filter(&mut self, filter: AcceptanceFilter)
        ensures
            final(self)@.mailboxes == old(self)@.mailboxes,
    {
        self.filter = filter;
    }

    fn clear_filter(&mut self)
        ensures
            final(self)@.mailboxes == old(self)@.mailboxes,
    {
        self.set_filter(AcceptanceFilter::accept_all());
    }
}

} // verus!
