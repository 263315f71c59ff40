//! CAN identifiers: the 11-bit base format and the 29-bit extended format.

use vstd::prelude::*;

verus! {

/// Largest value of an 11-bit base identifier.
pub const BASE_ID_MAX: u16 = 0x7FF;

/// Largest value of a 29-bit extended identifier.
pub const EXTENDED_ID_MAX: u32 = 0x1FFF_FFFF;

/// What an identifier is, apart from how a driver stores it: its format and
/// its number. The type has room for numbers that are too large for their
/// format; [`Identifier::valid`] tells them apart, and a [`CanId`] never holds
/// one.
#[derive(Clone, Copy, Debug, PartialEq, Eq, Structural)]
pub enum Identifier {
    /// An 11-bit identifier.
    Base(u16),
    /// A 29-bit identifier.
    Extended(u32),
}

impl Identifier {
    /// The number fits the width of its format.
    pub open spec fn valid(self) -> bool {
        match self {
            Identifier::Base(v) => v <= BASE_ID_MAX,
            Identifier::Extended(v) => v <= EXTENDED_ID_MAX,
        }
    }

    /// The identifier's number.
    pub open spec fn number(self) -> int {
        match self {
            Identifier::Base(v) => v as int,
            Identifier::Extended(v) => v as int,
        }
    }

    /// The bits that a frame with this identifier puts on the bus while the
    /// nodes arbitrate, read as one number: the eleven leading identifier bits,
    /// then the format flag (0 for base, 1 for extended), then the eighteen
    /// trailing bits of an extended identifier. The frame with the smallest
    /// number wins the bus.
    pub open spec fn arbitration_key(self) -> int {
        match self {
            Identifier::Base(v) => v as int * 0x8_0000,
            Identifier::Extended(v) => (v as int / 0x4_0000) * 0x8_0000 + 0x4_0000 + (v as int
                % 0x4_0000),
        }
    }

    /// `self` wins arbitration against `other`.
    pub open spec fn outranks(self, other: Identifier) -> bool {
        self.arbitration_key() < other.arbitration_key()
    }
}

/// Every identifier has one format and not the other.
pub proof fn lemma_one_format(id: Identifier)
    ensures
        id is Base != id is Extended,
{
}

/// Among identifiers of one format, the one with the smaller number wins
/// arbitration.
pub proof fn lemma_same_format_order(a: Identifier, b: Identifier)
    requires
        a.valid(),
        b.valid(),
        a is Base == b is Base,
    ensures
        a.outranks(b) <==> a.number() < b.number(),
{
}

/// Of two different identifiers one wins arbitration against the other, and
/// only one does.
pub proof fn lemma_one_winner(a: Identifier, b: Identifier)
    requires
        a.valid(),
        b.valid(),
        a != b,
    ensures
        a.outranks(b) != b.outranks(a),
{
}

/// A base identifier wins arbitration against every extended identifier that
/// starts with the same eleven bits.
pub proof fn lemma_base_wins_tie(base: u16, extended: u32)
    requires
        Identifier::Base(base).valid(),
        Identifier::Extended(extended).valid(),
        base == extended / 0x4_0000,
    ensures
        Identifier::Base(base).outranks(Identifier::Extended(extended)),
{
}

/// A type that is either an 11-bit or a 29-bit identifier.
pub trait Id: Sized {
    /// The 11-bit variant.
    type BaseId;

    /// The 29-bit variant.
    type ExtendedId;

    /// The identifier that this value stands for.
    spec fn view(&self) -> Identifier;

    /// The number that a value of the 11-bit variant carries.
    spec fn base_number(id: Self::BaseId) -> u16;

    /// The number that a value of the 29-bit variant carries.
    spec fn extended_number(id: Self::ExtendedId) -> u32;

    /// The 11-bit identifier, if this is one. Its number fits eleven bits.
    fn base_id(&self) -> (r: Option<Self::BaseId>)
        ensures
            match self@ {
                Identifier::Base(v) => {
                    &&& r matches Some(b) && Self::base_number(b) == v
                    &&& v <= BASE_ID_MAX
                },
                Identifier::Extended(_) => r is None,
            },
    ;

    /// The 29-bit identifier, if this is one. Its number fits twenty-nine
    /// bits.
    fn extended_id(&self) -> (r: Option<Self::ExtendedId>)
        ensures
            match self@ {
                Identifier::Base(_) => r is None,
                Identifier::Extended(v) => {
                    &&& r matches Some(e) && Self::extended_number(e) == v
                    &&& v <= EXTENDED_ID_MAX
                },
            },
    ;
}

/// An identifier held as a format flag and a number that fits the format.
#[derive(Clone, Copy, Debug, PartialEq, Eq)]
pub struct CanId {
    extended: bool,
    raw: u32,
}

impl CanId {
    #[verifier::type_invariant]
    spec fn in_range(self) -> bool {
        if self.extended {
            self.raw <= EXTENDED_ID_MAX
        } else {
            self.raw <= BASE_ID_MAX
        }
    }

    /// The base identifier with the number `raw`, unless `raw` needs more than
    /// eleven bits.
    pub fn base(raw: u16) -> (r: Option<CanId>)
        ensures
            r is Some <==> raw <= BASE_ID_MAX,
            r matches Some(id) ==> id@ == Identifier::Base(raw),
    {
        if raw <= BASE_ID_MAX {
            Some(CanId { extended: false, raw: raw as u32 })
        } else {
            None
        }
    }

    /// The extended identifier with the number `raw`, unless `raw` needs more
    /// than twenty-nine bits.
    pub fn extended(raw: u32) -> (r: Option<CanId>)
        ensures
            r is Some <==> raw <= EXTENDED_ID_MAX,
            r matches Some(id) ==> id@ == Identifier::Extended(raw),
    {
        if raw <= EXTENDED_ID_MAX {
            Some(CanId { extended: true, raw })
        } else {
            None
        }
    }

    /// The identifier's format and number.
    pub fn identifier(&self) -> (r: Identifier)
        ensures
            r == self@,
            r.valid(),
    {
        proof {
            use_type_invariant(self);
        }
        if self.extended {
            Identifier::Extended(self.raw)
        } else {
            Identifier::Base(self.raw as u16)
        }
    }

    /// The identifier's arbitration key.
    pub fn arbitration_key(&self) -> (k: u32)
        ensures
            k == self@.arbitration_key(),
    {
        proof {
            use_type_invariant(self);
        }
        if self.extended {
            (self.raw / 0x4_0000) * 0x8_0000 + 0x4_0000 + self.raw % 0x4_0000
        } else {
            self.raw * 0x8_0000
        }
    }
}

impl Id for CanId {
    type BaseId = u16;

    type ExtendedId = u32;

    closed spec fn view(&self) -> Identifier {
        if self.extended {
            Identifier::Extended(self.raw)
        } else {
            Identifier::Base(self.raw as u16)
        }
    }

    open spec fn base_number(id: u16) -> u16 {
        id
    }

    open spec fn extended_number(id: u32) -> u32 {
        id
    }

    fn base_id(&self) -> (r: Option<u16>) {
        proof {
            use_type_invariant(self);
        }
        if self.extended {
            None
        } else {
            Some(self.raw as u16)
        }
    }

    fn extended_id(&self) -> (r: Option<u32>) {
        proof {
            use_type_invariant(self);
        }
        if self.extended {
            Some(self.raw)
        } else {
            None
        }
    }
}

} // verus!
