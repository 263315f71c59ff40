use can_hal::{
    mask_matches, try_from_mask, AcceptanceFilter, CanId, Filter, Identifier, MaskError,
};

fn base(raw: u16) -> CanId {
    CanId::base(raw).unwrap()
}

fn extended(raw: u32) -> CanId {
    CanId::extended(raw).unwrap()
}

#[test]
fn accept_all_matches_every_base_identifier() {
    let filter = AcceptanceFilter::accept_all();
    let mut raw: u16 = 0;
    while raw <= 0x7FF {
        assert!(filter.matches(&base(raw)));
        raw += 1;
    }
}

#[test]
fn accept_all_matches_extended_identifiers() {
    let filter = AcceptanceFilter::accept_all();
    for raw in [0u32, 1, 0x7FF, 0x800, 0x1234_5678, 0x1FFF_FFFF] {
        assert!(filter.matches(&extended(raw)));
    }
}

#[test]
fn from_id_matches_the_identifier_itself() {
    assert!(AcceptanceFilter::from_id(base(0x155)).matches(&base(0x155)));
    assert!(AcceptanceFilter::from_id(extended(0x155)).matches(&extended(0x155)));
    assert!(AcceptanceFilter::from_id(extended(0x1FFF_FFFF)).matches(&extended(0x1FFF_FFFF)));
    assert!(AcceptanceFilter::from_id(base(0)).matches(&base(0)));
}

#[test]
fn from_id_matches_no_other_base_identifier() {
    let filter = AcceptanceFilter::from_id(base(0x155));
    let mut raw: u16 = 0;
    while raw <= 0x7FF {
        assert_eq!(filter.matches(&base(raw)), raw == 0x155);
        raw += 1;
    }
}

#[test]
fn from_id_matches_no_other_extended_identifier() {
    let filter = AcceptanceFilter::from_id(extended(0x0ABC_DEF1));
    for raw in [0u32, 0x0ABC_DEF0, 0x0ABC_DEF3, 0x1ABC_DEF1, 0x6F1, 0x1FFF_FFFF] {
        assert!(!filter.matches(&extended(raw)));
    }
    assert!(filter.matches(&extended(0x0ABC_DEF1)));
}

#[test]
fn from_id_keeps_the_other_format_out() {
    assert!(!AcceptanceFilter::from_id(base(0x155)).matches(&extended(0x155)));
    assert!(!AcceptanceFilter::from_id(extended(0x155)).matches(&base(0x155)));
    // An extended identifier whose low eleven bits are those of the base one.
    assert!(!AcceptanceFilter::from_id(base(0x155)).matches(&extended(0x1234_5955)));
    assert!(!AcceptanceFilter::from_id(extended(0x1234_5955)).matches(&base(0x155)));
}

#[test]
fn mask_compares_the_bits_it_cares_about() {
    // Cares about bits 4 to 10: lets 0x120 to 0x12F through.
    let filter = AcceptanceFilter::from_mask(0x7F0, 0x120);
    assert!(filter.matches(&base(0x120)));
    assert!(filter.matches(&base(0x12F)));
    assert!(!filter.matches(&base(0x130)));
    assert!(!filter.matches(&base(0x020)));
    assert!(filter.matches(&extended(0x120)));
    assert!(filter.matches(&extended(0x1FFF_F92A)));
    assert!(!filter.matches(&extended(0x130)));
}

#[test]
fn mask_of_zero_lets_everything_through() {
    let filter = AcceptanceFilter::from_mask(0, 0x1234_5678);
    assert!(filter.matches(&base(0)));
    assert!(filter.matches(&base(0x7FF)));
    assert!(filter.matches(&extended(0)));
    assert!(filter.matches(&extended(0x1FFF_FFFF)));
}

#[test]
fn base_match_ignores_bits_from_eleven_on() {
    let plain = AcceptanceFilter::from_mask(0x7FF, 0x2A5);
    let high_masks: [u32; 5] = [0x800, 0x1FFF_F800, 0x0AAA_A800, 0x1000_0000, 0x0555_5000];
    let high_patterns: [u32; 4] = [0, 0x1FFF_F800, 0x0F0F_0800, 0x1000_0000];
    let mut raw: u16 = 0;
    while raw <= 0x7FF {
        let id = base(raw);
        let expected = raw == 0x2A5;
        assert_eq!(plain.matches(&id), expected);
        for high_mask in high_masks {
            for high_pattern in high_patterns {
                let filter = AcceptanceFilter::from_mask(0x7FF | high_mask, 0x2A5 | high_pattern);
                assert_eq!(filter.matches(&id), expected);
            }
        }
        raw += 1;
    }
}

#[test]
fn base_match_ignores_the_format_flag() {
    let wants_extended = AcceptanceFilter::from_mask(0x2000_07FF, 0x2000_0123);
    let wants_base = AcceptanceFilter::from_mask(0x2000_07FF, 0x0000_0123);
    assert!(wants_extended.matches(&base(0x123)));
    assert!(wants_base.matches(&base(0x123)));
    assert!(!wants_extended.matches(&base(0x124)));
}

#[test]
fn extended_match_compares_bits_up_to_twenty_eight() {
    let filter = AcceptanceFilter::from_mask(0x1FFF_FFFF, 0x1234_5678);
    assert!(filter.matches(&extended(0x1234_5678)));
    assert!(!filter.matches(&extended(0x0234_5678)));
    assert!(!filter.matches(&extended(0x1234_5679)));
    assert!(!filter.matches(&extended(0x1234_D678)));
}

#[test]
fn format_flag_selects_extended_frames() {
    let flag_set = AcceptanceFilter::from_mask(0x2000_0000, 0x2000_0000);
    let flag_clear = AcceptanceFilter::from_mask(0x2000_0000, 0);
    let flag_ignored = AcceptanceFilter::from_mask(0, 0);
    for raw in [0u32, 0x123, 0x1FFF_FFFF] {
        assert!(flag_set.matches(&extended(raw)));
        assert!(!flag_clear.matches(&extended(raw)));
        assert!(flag_ignored.matches(&extended(raw)));
    }
    // Only base frames pass a filter that wants the flag to be 0.
    assert!(flag_clear.matches(&base(0)));
    assert!(flag_clear.matches(&base(0x7FF)));
}

#[test]
fn mask_with_reserved_bits_is_turned_down() {
    let masks: [u32; 6] =
        [0x4000_0000, 0x8000_0000, 0xC000_0000, 0x4000_07FF, 0xFFFF_FFFF, 0x8000_0001];
    let patterns: [u32; 4] = [0, 0x123, 0x2000_0000, 0xFFFF_FFFF];
    for mask in masks {
        for pattern in patterns {
            let made: Result<AcceptanceFilter, MaskError> = try_from_mask(mask, pattern);
            assert!(matches!(made, Err(MaskError::ReservedBits)));
        }
    }
}

#[test]
fn mask_without_reserved_bits_is_taken() {
    let masks: [u32; 5] = [0, 0x7FF, 0x1FFF_FFFF, 0x2000_0000, 0x3FFF_FFFF];
    for mask in masks {
        let made: Result<AcceptanceFilter, MaskError> = try_from_mask(mask, 0x155);
        assert!(made.is_ok());
    }
}

#[test]
fn checked_mask_filter_matches_as_the_unchecked_one() {
    let checked: AcceptanceFilter = try_from_mask(0x7F0, 0x120).unwrap();
    let unchecked = AcceptanceFilter::from_mask(0x7F0, 0x120);
    let mut raw: u16 = 0;
    while raw <= 0x7FF {
        assert_eq!(checked.matches(&base(raw)), unchecked.matches(&base(raw)));
        raw += 1;
    }
}

#[test]
fn pattern_may_use_the_reserved_bits() {
    // Only the mask is held to the rule; what the pattern has there is not
    // looked at.
    let filter: AcceptanceFilter = try_from_mask(0x7FF, 0xC000_0123).unwrap();
    assert!(filter.matches(&base(0x123)));
    assert!(!filter.matches(&base(0x122)));
}

#[test]
fn mask_match_on_plain_identifiers() {
    assert!(mask_matches(0x7FF, 0x123, Identifier::Base(0x123)));
    assert!(!mask_matches(0x7FF, 0x123, Identifier::Base(0x122)));
    assert!(mask_matches(0x1FFF_F7FF, 0x1FFF_F923, Identifier::Base(0x123)));
    assert!(mask_matches(0x1FFF_FFFF, 0x0012_3456, Identifier::Extended(0x0012_3456)));
    assert!(!mask_matches(0x1FFF_FFFF, 0x0012_3456, Identifier::Extended(0x0012_3457)));
    assert!(!mask_matches(0x2000_0000, 0, Identifier::Extended(0)));
    assert!(mask_matches(0x2000_0000, 0, Identifier::Base(0)));
    assert!(mask_matches(0x2000_0000, 0x2000_0000, Identifier::Extended(0)));
}

#[test]
fn mask_match_is_what_the_filter_does() {
    let masks: [u32; 4] = [0, 0x7F0, 0x2000_07FF, 0x3FFF_FFFF];
    let patterns: [u32; 4] = [0, 0x120, 0x2000_0120, 0x1FFF_FFFF];
    let ids = [base(0), base(0x120), base(0x7FF), extended(0x120), extended(0x1FFF_FFFF)];
    for mask in masks {
        for pattern in patterns {
            let filter = AcceptanceFilter::from_mask(mask, pattern);
            for id in ids {
                assert_eq!(filter.matches(&id), mask_matches(mask, pattern, id.identifier()));
            }
        }
    }
}
