use ga_blades::dimension::BladeError;
use ga_blades::dimension::Grade;
use ga_blades::unit_basis_blade::UnitBasisBlade;

#[test]
fn basis_blade_unit_basis_blade_from_bool_array() {
    let blade = UnitBasisBlade::from_membership(3, &vec![false, true, true]).unwrap();

    assert_eq!(blade.bitset(), 6);
}

#[test]
fn basis_blade_unit_basis_blade_from_u8() {
    let blade = UnitBasisBlade::new(3, 255).unwrap();

    // Check that a bitmap was applied
    assert_eq!(blade.bitset(), 7);
}

#[test]
fn unit_basis_blade_unit_basis_blade_from_bool_array() {
    let blade = UnitBasisBlade::from_membership(3, &vec![false, true, true]).unwrap();

    assert_eq!(blade.bitset(), 6);
    assert_eq!(blade.basis_vectors(), vec![false, true, true]);
}

#[test]
fn unit_basis_blade_unit_basis_blade_from_u8() {
    let blade = UnitBasisBlade::new(3, 0xFF).unwrap();

    // Check that a bitmap was applied
    assert_eq!(blade.bitset(), 7);
    assert_eq!(blade.basis_vectors(), vec![true, true, true]);
}

#[test]
fn masking_discards_bits_at_and_above_the_dimension() {
    let blade = UnitBasisBlade::new(3, 0b1010_1010).unwrap();
    assert_eq!(blade.bitset(), 0b010);

    let wide = UnitBasisBlade::new(64, u64::MAX).unwrap();
    assert_eq!(wide.bitset(), u64::MAX);

    let narrow = UnitBasisBlade::new(1, u64::MAX).unwrap();
    assert_eq!(narrow.bitset(), 1);
}

#[test]
fn zero_blade_is_empty() {
    let blade = UnitBasisBlade::zero(5).unwrap();
    assert_eq!(blade.bitset(), 0);
    assert!(blade.is_zero());
    assert_eq!(blade.grade(), 0);
    assert_eq!(blade.dimension(), 5);
}

#[test]
fn contains_basis_vector_reads_single_bits() {
    let blade = UnitBasisBlade::new(3, 6).unwrap();
    assert!(!blade.contains_basis_vector(0));
    assert!(blade.contains_basis_vector(1));
    assert!(blade.contains_basis_vector(2));
    // Indices at or past the dimension are simply absent, not an error.
    assert!(!blade.contains_basis_vector(3));
    assert!(!blade.contains_basis_vector(200));
}

#[test]
fn grade_counts_basis_vectors() {
    assert_eq!(UnitBasisBlade::new(4, 0b1011).unwrap().grade(), 3);
    assert_eq!(UnitBasisBlade::new(64, u64::MAX).unwrap().grade(), 64);
    assert_eq!(UnitBasisBlade::zero(7).unwrap().grade(), 0);
}

#[test]
fn from_membership_rejects_wrong_length() {
    let r = UnitBasisBlade::from_membership(3, &vec![true, false]);
    assert_eq!(r, Err(BladeError::DimensionMismatch));

    let r = UnitBasisBlade::from_membership(2, &vec![true, false, true]);
    assert_eq!(r, Err(BladeError::DimensionMismatch));
}

#[test]
fn constructors_reject_out_of_range_dimensions() {
    assert_eq!(UnitBasisBlade::new(0, 1), Err(BladeError::OutOfRangeDimension));
    assert_eq!(UnitBasisBlade::new(65, 1), Err(BladeError::OutOfRangeDimension));
    assert_eq!(UnitBasisBlade::zero(0), Err(BladeError::OutOfRangeDimension));
    assert_eq!(
        UnitBasisBlade::from_membership(0, &vec![]),
        Err(BladeError::OutOfRangeDimension)
    );
}

#[test]
fn combinators_follow_the_bit_patterns() {
    let a = UnitBasisBlade::new(4, 0b0110).unwrap();
    let b = UnitBasisBlade::new(4, 0b0011).unwrap();
    assert_eq!(a.meet(&b).unwrap().bitset(), 0b0010);
    assert_eq!(a.join(&b).unwrap().bitset(), 0b0111);
    assert_eq!(a.symmetric_difference(&b).unwrap().bitset(), 0b0101);
}

#[test]
fn combinators_reject_mismatched_dimensions() {
    let a = UnitBasisBlade::new(3, 0b110).unwrap();
    let b = UnitBasisBlade::new(4, 0b001).unwrap();
    assert_eq!(a.meet(&b), Err(BladeError::DimensionMismatch));
    assert_eq!(a.join(&b), Err(BladeError::DimensionMismatch));
    assert_eq!(a.symmetric_difference(&b), Err(BladeError::DimensionMismatch));
}

#[test]
fn membership_round_trip() {
    let flags = vec![true, false, true, true, false];
    let blade = UnitBasisBlade::from_membership(5, &flags).unwrap();
    assert_eq!(blade.bitset(), 0b01101);
    assert_eq!(blade.basis_vectors(), flags);
    assert_eq!(blade.grade(), 3);
}
