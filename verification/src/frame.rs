//! CAN frames: an identifier and either a payload or a request for one.

use crate::id::{CanId, Id, Identifier};
use vstd::prelude::*;
use vstd::slice::slice_subrange;

verus! {

/// The most bytes that a data frame carries.
pub const MAX_PAYLOAD: usize = 8;

/// What a frame is, apart from how a driver stores it.
pub struct FrameView {
    /// The frame's identifier.
    pub id: Identifier,
    /// The bytes of a data frame; a remote frame has none.
    pub payload: Option<Seq<u8>>,
}

/// Every frame is a data frame or a remote frame, and not both.
pub proof fn lemma_one_kind(frame: FrameView)
    ensures
        frame.payload is Some != frame.payload is None,
{
}

/// A CAN frame.
pub trait Frame: Sized {
    /// The identifier type of this frame.
    type Id: Id;

    /// The frame that this value stands for.
    spec fn view(&self) -> FrameView;

    /// Whether this is a remote frame.
    fn is_remote_frame(&self) -> (r: bool)
        ensures
            r == self@.payload is None,
    ;

    /// Whether this is a data frame.
    fn is_data_frame(&self) -> (r: bool)
        ensures
            r == self@.payload is Some,
    ;

    /// Whether the frame's identifier has the base format.
    fn is_base_id_frame(&self) -> (r: bool)
        ensures
            r == self@.id is Base,
    {
        self.id().base_id().is_some()
    }

    /// Whether the frame's identifier has the extended format.
    fn is_extended_id_frame(&self) -> (r: bool)
        ensures
            r == self@.id is Extended,
    {
        self.id().extended_id().is_some()
    }

    /// The frame's identifier.
    fn id(&self) -> (r: Self::Id)
        ensures
            r@ == self@.id,
    ;

    /// The payload of a data frame; nothing for a remote frame.
    fn data(&self) -> (r: Option<&[u8]>)
        ensures
            match r {
                Some(bytes) => self@.payload == Some(bytes@) && bytes@.len() <= MAX_PAYLOAD,
                None => self@.payload is None,
            },
    ;
}

/// A frame held in place: up to eight bytes and their count.
#[derive(Clone, Copy, Debug, PartialEq, Eq)]
pub struct CanFrame {
    id: CanId,
    remote: bool,
    len: usize,
    bytes: [u8; 8],
}

impl CanFrame {
    #[verifier::type_invariant]
    spec fn well_formed(self) -> bool {
        &&& self.len <= MAX_PAYLOAD
        &&& self.remote ==> self.len == 0
        &&& forall|i: int| self.len <= i < 8 ==> self.bytes[i] == 0
    }

    /// A data frame with the payload `data`, unless `data` is longer than
    /// eight bytes.
    pub fn new(id: CanId, data: &[u8]) -> (r: Option<CanFrame>)
        ensures
            r is Some <==> data@.len() <= MAX_PAYLOAD,
            r matches Some(frame) ==> frame@ == (FrameView { id: id@, payload: Some(data@) }),
    {
        let len = data.len();
        if len > MAX_PAYLOAD {
            return None;
        }
        let mut bytes = [0u8;8];
        let mut i: usize = 0;
        while i < len
            invariant
                i <= len <= MAX_PAYLOAD,
                len == data@.len(),
                forall|j: int| 0 <= j < i ==> bytes[j] == data@[j],
                forall|j: int| i <= j < 8 ==> bytes[j] == 0,
            decreases len - i,
        {
            bytes[i] = data[i];
            i += 1;
        }
        let frame = CanFrame { id, remote: false, len, bytes };
        assert(frame.bytes@.subrange(0, len as int) =~= data@);
        Some(frame)
    }

    /// A remote frame: a request for the data that goes by `id`.
    pub fn new_remote(id: CanId) -> (frame: CanFrame)
        ensures
            frame@ == (FrameView { id: id@, payload: None }),
    {
        CanFrame { id, remote: true, len: 0, bytes: [0u8;8] }
    }
}

impl Frame for CanFrame {
    type Id = CanId;

    closed spec fn view(&self) -> FrameView {
        FrameView {
            id: self.id@,
            payload: if self.remote {
                None
            } else {
                Some(self.bytes@.subrange(0, self.len as int))
            },
        }
    }

    fn is_remote_frame(&self) -> (r: bool) {
        self.remote
    }

    fn is_data_frame(&self) -> (r: bool) {
        !self.remote
    }

    fn id(&self) -> (r: CanId) {
        self.id
    }

    fn data(&self) -> (r: Option<&[u8]>) {
        proof {
            use_type_invariant(self);
        }
        if self.remote {
            None
        } else {
            Some(slice_subrange(self.bytes.as_slice(), 0, self.len))
        }
    }
}

} // verus!
