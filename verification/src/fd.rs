//! Frames of the flexible data-rate format, and classic frames seen as such.

use crate::frame::{CanFrame, Frame, FrameView, MAX_PAYLOAD};
use crate::id::{CanId, Id};
use vstd::prelude::*;

verus! {

/// The most bytes that a frame of the flexible data-rate format carries.
pub const MAX_FD_PAYLOAD: usize = 64;

/// A frame that may be of the flexible data-rate format. A classic frame can
/// be held in such a type too.
pub trait FdFrame: Sized {
    /// The identifier type of this frame.
    type Id: Id;

    /// The frame that this value stands for.
    spec fn view(&self) -> FrameView;

    /// The frame goes over the bus in the flexible data-rate format.
    spec fn flexible(&self) -> bool;

    /// Whether the frame goes over the bus in the flexible data-rate format,
    /// and not in the classic one.
    fn is_fd_frame(&self) -> (r: bool)
        ensures
            r == self.flexible(),
    ;

    /// Whether this is a remote frame.
    fn is_remote_frame(&self) -> (r: bool)
        ensures
            r == self@.payload is None,
    ;

    /// Whether this is a data frame.
    fn is_data_frame(&self) -> (r: bool)
        ensures
            r == self@.payload is Some,
    ;

    /// Whether the frame's identifier has the base format.
    fn is_base_id_frame(&self) -> (r: bool)
        ensures
            r == self@.id is Base,
    {
        self.id().base_id().is_some()
    }

    /// Whether the frame's identifier has the extended format.
    fn is_extended_id_frame(&self) -> (r: bool)
        ensures
            r == self@.id is Extended,
    {
        self.id().extended_id().is_some()
    }

    /// The frame's identifier.
    fn id(&self) -> (r: Self::Id)
        ensures
            r@ == self@.id,
    ;

    /// The payload of a data frame; nothing for a remote frame.
    fn data(&self) -> (r: Option<&[u8]>)
        ensures
            match r {
                Some(bytes) => {
                    &&& self@.payload == Some(bytes@)
                    &&& bytes@.len() <= MAX_FD_PAYLOAD
                    &&& !self.flexible() ==> bytes@.len() <= MAX_PAYLOAD
                },
                None => self@.payload is None,
            },
    ;
}

impl FdFrame for CanFrame {
    type Id = CanId;

    open spec fn view(&self) -> FrameView {
        Frame::view(self)
    }

    open spec fn flexible(&self) -> bool {
        false
    }

    fn is_fd_frame(&self) -> (r: bool) {
        false
    }

    fn is_remote_frame(&self) -> (r: bool) {
        Frame::is_remote_frame(self)
    }

    fn is_data_frame(&self) -> (r: bool) {
        Frame::is_data_frame(self)
    }

    fn id(&self) -> (r: CanId) {
        Frame::id(self)
    }

    fn data(&self) -> (r: Option<&[u8]>) {
        Frame::data(self)
    }
}

} // verus!
