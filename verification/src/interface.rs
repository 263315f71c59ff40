//! The controller's side of the contract: transmitting and receiving.

use crate::filter::Filter;
use crate::frame::{Frame, FrameView};
use crate::id::{Id, Identifier};
use crate::priority::{blocked, displaced, queued, received};
use vstd::prelude::*;

verus! {

/// The error of a non-blocking operation: [`nb::Error`], with its two
/// variants as the crate declares them. `WouldBlock` says that the operation
/// cannot finish now and may be tried again; `Other` carries an error of the
/// operation itself.
#[verifier::external_type_specification]
#[verifier::reject_recursive_types(E)]
pub struct ExNonBlockingError<E>(nb::Error<E>);

/// A CAN controller. It may be a [`Transmitter`], a [`Receiver`] or both.
pub trait Interface {
    /// The identifier type of this controller.
    type Id: Id;

    /// The frame type that this controller works on.
    type Frame: Frame<Id = Self::Id>;

    /// The error that the controller's hardware may report.
    type Error;

    /// The filter type of this controller.
    type Filter: Filter<Id = Self::Id>;
}

/// A controller that can transmit frames.
pub trait Transmitter: Interface {
    /// The transmit mailboxes, each with the frame that it holds.
    spec fn mailboxes(&self) -> Seq<Option<FrameView>>;

    /// Puts `frame` into a transmit mailbox.
    ///
    /// With a mailbox free, the frame goes there. With all of them taken, the
    /// frame replaces a frame of the lowest priority held, if it wins
    /// arbitration against that frame, and the frame replaced is handed back:
    /// a frame is never kept waiting by one of lower priority. If it does
    /// not win, nothing changes and the call would block. An error of the
    /// hardware comes back as it is.
    fn transmit(&mut self, frame: &Self::Frame) -> (r: nb::Result<Option<Self::Frame>, Self::Error>)
        ensures
            final(self).mailboxes().len() == old(self).mailboxes().len(),
            match r {
                Ok(None) => queued(old(self).mailboxes(), frame@, final(self).mailboxes()),
                Ok(Some(evicted)) => displaced(
                    old(self).mailboxes(),
                    frame@,
                    evicted@,
                    final(self).mailboxes(),
                ),
                Err(nb::Error::WouldBlock) => {
                    &&& blocked(old(self).mailboxes(), frame@)
                    &&& final(self).mailboxes() == old(self).mailboxes()
                },
                Err(nb::Error::Other(_)) => true,
            },
    ;
}

/// A controller that can receive frames.
pub trait Receiver: Interface {
    /// The frames that have arrived and wait to be received, oldest first.
    spec fn pending(&self) -> Seq<FrameView>;

    /// The identifiers that the controller lets into its receive buffers.
    spec fn accepted(&self) -> Set<Identifier>;

    /// Takes the frame of the highest priority among those that wait. With
    /// none waiting the call would block. An error of the hardware comes back
    /// as it is.
    fn receive(&mut self) -> (r: nb::Result<Self::Frame, Self::Error>)
        ensures
            final(self).accepted() == old(self).accepted(),
            match r {
                Ok(frame) => received(old(self).pending(), frame@, final(self).pending()),
                Err(nb::Error::WouldBlock) => {
                    &&& old(self).pending().len() == 0
                    &&& final(self).pending() == old(self).pending()
                },
                Err(nb::Error::Other(_)) => true,
            },
    ;

    /// From now on only frames that `filter` lets through enter the receive
    /// buffers. Frames that wait there already stay, whether `filter` lets
    /// them through or not.
    fn set_filter(&mut self, filter: Self::Filter)
        ensures
            final(self).accepted() == filter@,
            final(self).pending() == old(self).pending(),
    ;

    /// From now on every frame enters the receive buffers: as `set_filter`
    /// does with a filter that lets everything through.
    fn clear_filter(&mut self)
        ensures
            final(self).accepted() == Set::<Identifier>::full(),
            final(self).pending() == old(self).pending(),
    {
        self.set_filter(Self::Filter::accept_all())
    }
}

} // verus!
