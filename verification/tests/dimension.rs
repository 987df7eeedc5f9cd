use ga_blades::dimension::BitsetMask;
use ga_blades::dimension::CountBits;
use ga_blades::dimension::Dimension;

#[test]
fn dimension_unit_basis_blade_from_u8() {
    let mask = 6u8.bitset_mask();

    assert_eq!(mask, 63);
}

#[test]
fn bitset_mask_covers_the_full_width() {
    assert_eq!(1u8.bitset_mask(), 1);
    assert_eq!(8u8.bitset_mask(), 0xFF);
    assert_eq!(64u8.bitset_mask(), u64::MAX);
}

#[test]
fn count_bits_is_the_population_count() {
    assert_eq!(0u64.count_bits(), 0);
    assert_eq!(1u64.count_bits(), 1);
    assert_eq!(0b1011u64.count_bits(), 3);
    assert_eq!(u64::MAX.count_bits(), 64);
    assert_eq!((1u64 << 63).count_bits(), 1);
}

#[test]
fn supported_dimensions_span_one_to_sixty_four() {
    assert!(!0u8.is_supported());
    assert!(1u8.is_supported());
    assert!(64u8.is_supported());
    assert!(!65u8.is_supported());
}
