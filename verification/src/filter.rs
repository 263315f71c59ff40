//! Acceptance filters: which identifiers a receiver lets through.

use crate::id::{CanId, Id, Identifier};
use vstd::prelude::*;

verus! {

/// Bit 29 of a mask or pattern: it stands for the extended-format flag.
pub const EXTENDED_FLAG: u32 = 0x2000_0000;

/// Bits 30 and 31 of a mask, which must be zero.
pub const RESERVED_BITS: u32 = 0xC000_0000;

/// Bits 0 to 10, which a base identifier is matched on.
pub const BASE_ID_BITS: u32 = 0x7FF;

/// Bits 0 to 28, which an extended identifier is matched on.
pub const EXTENDED_ID_BITS: u32 = 0x1FFF_FFFF;

/// Bit `i` of `word` is 1.
pub open spec fn bit(word: u32, i: u32) -> bool {
    (word >> i) & 1 == 1
}

/// Position `i` lets `word` through: the mask does not care about the
/// position, or the pattern and the word have the same bit there.
pub open spec fn position_agrees(mask: u32, pattern: u32, word: u32, i: u32) -> bool {
    bit(mask, i) ==> bit(pattern, i) == bit(word, i)
}

/// A mask and a pattern let `id` through.
///
/// A base identifier is compared at positions 0 to 10 and nowhere else: what
/// the mask and the pattern hold from position 11 on, the format flag at
/// position 29 included, never takes part. So the flag can keep extended
/// frames out, and cannot keep base frames out. An extended identifier is
/// compared at positions 0 to 28; if the mask cares about position 29, the
/// pattern must have a 1 there, as the frame is of the extended format.
pub open spec fn mask_accepts(mask: u32, pattern: u32, id: Identifier) -> bool {
    match id {
        Identifier::Base(v) => forall|i: u32|
            i < 11 ==> #[trigger] position_agrees(mask, pattern, v as u32, i),
        Identifier::Extended(v) => {
            &&& forall|i: u32| i < 29 ==> #[trigger] position_agrees(mask, pattern, v, i)
            &&& bit(mask, 29) ==> bit(pattern, 29)
        },
    }
}

/// The identifiers that a mask and a pattern let through.
pub open spec fn mask_accept_set(mask: u32, pattern: u32) -> Set<Identifier> {
    Set::new(|id: Identifier| mask_accepts(mask, pattern, id))
}

/// A word with its `n` lowest bits set and no other.
pub open spec fn low_bits(n: u32) -> u32 {
    if n >= 32 {
        0xFFFF_FFFF
    } else {
        !(0xFFFF_FFFFu32 << n)
    }
}

/// The positions below `n` all let `word` through exactly if `word` and the
/// pattern differ at no position below `n` that the mask cares about.
pub proof fn lemma_positions_agree(mask: u32, pattern: u32, word: u32, n: u32)
    requires
        n <= 32,
    ensures
        (forall|i: u32| i < n ==> #[trigger] position_agrees(mask, pattern, word, i)) <==> (word
            ^ pattern) & mask & low_bits(n) == 0,
    decreases n,
{
    let d = (word ^ pattern) & mask;
    if n == 0 {
        assert(d & low_bits(0) == 0) by (bit_vector);
    } else {
        let m = (n - 1) as u32;
        lemma_positions_agree(mask, pattern, word, m);
        assert((d & low_bits(n) == 0) <==> (d & low_bits(m) == 0 && (d >> m) & 1 == 0))
            by (bit_vector)
            requires
                1 <= n <= 32,
                m == n - 1,
        ;
        assert(((d >> m) & 1 == 0) <==> position_agrees(mask, pattern, word, m)) by (bit_vector)
            requires
                d == (word ^ pattern) & mask,
                m < 32,
        ;
        if d & low_bits(n) == 0 {
            assert forall|i: u32| i < n implies #[trigger] position_agrees(
                mask,
                pattern,
                word,
                i,
            ) by {
                if i < m {
                } else {
                    assert(i == m);
                }
            }
        }
    }
}

/// Whether a base identifier is let through depends on bits 0 to 10 of the
/// mask and of the pattern alone.
pub proof fn lemma_base_match_ignores_high_bits(
    mask_a: u32,
    pattern_a: u32,
    mask_b: u32,
    pattern_b: u32,
    v: u16,
)
    requires
        mask_a & BASE_ID_BITS == mask_b & BASE_ID_BITS,
        pattern_a & BASE_ID_BITS == pattern_b & BASE_ID_BITS,
    ensures
        mask_accepts(mask_a, pattern_a, Identifier::Base(v)) == mask_accepts(
            mask_b,
            pattern_b,
            Identifier::Base(v),
        ),
{
    let w = v as u32;
    lemma_positions_agree(mask_a, pattern_a, w, 11);
    lemma_positions_agree(mask_b, pattern_b, w, 11);
    assert(((w ^ pattern_a) & mask_a & low_bits(11) == 0) == ((w ^ pattern_b) & mask_b & low_bits(
        11,
    ) == 0)) by (bit_vector)
        requires
            mask_a & 0x7FF == mask_b & 0x7FF,
            pattern_a & 0x7FF == pattern_b & 0x7FF,
    ;
}

/// A mask that cares about the format flag, with a pattern whose flag is 0,
/// lets no extended identifier through.
pub proof fn lemma_flag_rejects_extended(mask: u32, pattern: u32, v: u32)
    requires
        mask & EXTENDED_FLAG != 0,
        pattern & EXTENDED_FLAG == 0,
    ensures
        !mask_accepts(mask, pattern, Identifier::Extended(v)),
{
    assert(bit(mask, 29) && !bit(pattern, 29)) by (bit_vector)
        requires
            mask & 0x2000_0000 != 0,
            pattern & 0x2000_0000 == 0,
    ;
}

/// The mask that cares about bits 0 to 10 and about the format flag, with
/// a base identifier's number as the pattern, lets through that identifier
/// and no other, of either format.
pub proof fn lemma_exact_base_mask(v: u16, other: Identifier)
    requires
        Identifier::Base(v).valid(),
        other.valid(),
    ensures
        mask_accepts(BASE_ID_BITS | EXTENDED_FLAG, v as u32, other) <==> other == Identifier::Base(
            v,
        ),
{
    let mask = BASE_ID_BITS | EXTENDED_FLAG;
    let pattern = v as u32;
    match other {
        Identifier::Base(w) => {
            let word = w as u32;
            lemma_positions_agree(mask, pattern, word, 11);
            assert(((word ^ pattern) & (0x7FFu32 | 0x2000_0000u32) & low_bits(11) == 0) <==> word
                == pattern) by (bit_vector)
                requires
                    word <= 0x7FF,
                    pattern <= 0x7FF,
            ;
        },
        Identifier::Extended(w) => {
            assert(bit(0x7FFu32 | 0x2000_0000u32, 29) && !bit(pattern, 29)) by (bit_vector)
                requires
                    pattern <= 0x7FF,
            ;
        },
    }
}

/// The mask that cares about bits 0 to 28, with an extended identifier's
/// number as the pattern, lets through that identifier and no other extended
/// identifier.
pub proof fn lemma_exact_extended_mask(v: u32, w: u32)
    requires
        Identifier::Extended(v).valid(),
        Identifier::Extended(w).valid(),
    ensures
        mask_accepts(EXTENDED_ID_BITS, v, Identifier::Extended(w)) <==> w == v,
{
    lemma_positions_agree(EXTENDED_ID_BITS, v, w, 29);
    assert(((w ^ v) & 0x1FFF_FFFFu32 & low_bits(29) == 0) <==> w == v) by (bit_vector)
        requires
            v <= 0x1FFF_FFFF,
            w <= 0x1FFF_FFFF,
    ;
    assert(!bit(0x1FFF_FFFFu32, 29)) by (bit_vector);
}

/// A type that lets a frame through or keeps it out, by the frame's
/// identifier alone.
pub trait Filter: Sized {
    /// The identifier type that this filter works on.
    type Id: Id;

    /// The identifiers that the filter lets through.
    spec fn view(&self) -> Set<Identifier>;

    /// A filter that lets through `id` and nothing else, in particular no
    /// identifier of the other format with the same number.
    fn from_id(id: Self::Id) -> (f: Self)
        ensures
            f@ == set![id@],
    ;

    /// A filter that lets every identifier through.
    fn accept_all() -> (f: Self)
        ensures
            f@ == Set::<Identifier>::full(),
    ;

    /// A filter from a mask and a pattern: see [`mask_accepts`]. A mask with
    /// bit 30 or 31 set is the caller's error.
    fn from_mask(mask: u32, filter: u32) -> (f: Self)
        requires
            mask & RESERVED_BITS == 0,
        ensures
            f@ == mask_accept_set(mask, filter),
    ;
}

/// Why a mask was turned down.
#[derive(Clone, Copy, Debug, PartialEq, Eq)]
pub enum MaskError {
    /// Bit 30 or 31 of the mask is set.
    ReservedBits,
}

/// A filter from a mask and a pattern, or the reason why the mask is no
/// mask: bit 30 or 31 of it is set.
pub fn try_from_mask<F: Filter>(mask: u32, pattern: u32) -> (r: Result<F, MaskError>)
    ensures
        r is Ok <==> mask & RESERVED_BITS == 0,
        r matches Ok(f) ==> f@ == mask_accept_set(mask, pattern),
{
    if mask & RESERVED_BITS == 0 {
        Ok(F::from_mask(mask, pattern))
    } else {
        Err(MaskError::ReservedBits)
    }
}

/// Whether a mask and a pattern let `id` through.
pub fn mask_matches(mask: u32, pattern: u32, id: Identifier) -> (r: bool)
    ensures
        r == mask_accepts(mask, pattern, id),
{
    match id {
        Identifier::Base(v) => {
            let word = v as u32;
            proof {
                lemma_positions_agree(mask, pattern, word, 11);
                assert(low_bits(11) == 0x7FF) by (bit_vector);
            }
            (word ^ pattern) & mask & BASE_ID_BITS == 0
        },
        Identifier::Extended(v) => {
            proof {
                lemma_positions_agree(mask, pattern, v, 29);
                assert(low_bits(29) == 0x1FFF_FFFF) by (bit_vector);
                assert(bit(mask, 29) == (mask & 0x2000_0000 != 0)) by (bit_vector);
                assert(bit(pattern, 29) == (pattern & 0x2000_0000 != 0)) by (bit_vector);
            }
            (v ^ pattern) & mask & EXTENDED_ID_BITS == 0 && (mask & EXTENDED_FLAG == 0 || pattern
                & EXTENDED_FLAG != 0)
        },
    }
}

#[derive(Clone, Copy, Debug)]
enum Rule {
    Exact(CanId),
    All,
    Mask { mask: u32, pattern: u32 },
}

/// A filter held as the rule it was made from.
#[derive(Clone, Copy, Debug)]
pub struct AcceptanceFilter {
    rule: Rule,
}

impl AcceptanceFilter {
    /// Whether the filter lets `id` through.
    pub fn matches(&self, id: &CanId) -> (r: bool)
        ensures
            r == self@.contains(id@),
    {
        match self.rule {
            Rule::Exact(wanted) => wanted.identifier() == id.identifier(),
            Rule::All => true,
            Rule::Mask { mask, pattern } => mask_matches(mask, pattern, id.identifier()),
        }
    }
}

impl Filter for AcceptanceFilter {
    type Id = CanId;

    closed spec fn view(&self) -> Set<Identifier> {
        match self.rule {
            Rule::Exact(id) => set![id@],
            Rule::All => Set::full(),
            Rule::Mask { mask, pattern } => mask_accept_set(mask, pattern),
        }
    }

    fn from_id(id: CanId) -> (f: AcceptanceFilter) {
        AcceptanceFilter { rule: Rule::Exact(id) }
    }

    fn accept_all() -> (f: AcceptanceFilter) {
        AcceptanceFilter { rule: Rule::All }
    }

    fn from_mask(mask: u32, filter: u32) -> (f: AcceptanceFilter) {
        AcceptanceFilter { rule: Rule::Mask { mask, pattern: filter } }
    }
}

} // verus!
