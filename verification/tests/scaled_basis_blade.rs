use ga_blades::dimension::BladeError;
use ga_blades::scaled_basis_blade::ScaledBasisBlade;
use ga_blades::unit_basis_blade::UnitBasisBlade;

#[test]
fn zero_is_canonical_and_tests_as_zero() {
    let z = ScaledBasisBlade::zero(3).unwrap();
    assert!(z.is_zero());
    assert_eq!(z.scale(), 0);
    assert!(z.unit_basis_blade().is_zero());
}

#[test]
fn zero_rejects_out_of_range_dimensions() {
    assert_eq!(ScaledBasisBlade::zero(0), Err(BladeError::OutOfRangeDimension));
    assert_eq!(ScaledBasisBlade::zero(65), Err(BladeError::OutOfRangeDimension));
}

#[test]
fn new_collapses_zero_scale_to_canonical_zero() {
    let blade = UnitBasisBlade::new(3, 6).unwrap();
    let scaled = ScaledBasisBlade::new(0, blade);
    assert_eq!(scaled, ScaledBasisBlade::zero(3).unwrap());
    assert!(scaled.is_zero());
    assert!(scaled.unit_basis_blade().is_zero());
}

#[test]
fn new_collapses_empty_blade_to_canonical_zero() {
    let empty = UnitBasisBlade::zero(3).unwrap();
    let scaled = ScaledBasisBlade::new(17, empty);
    assert_eq!(scaled, ScaledBasisBlade::zero(3).unwrap());
    assert!(scaled.is_zero());
    assert_eq!(scaled.scale(), 0);
}

#[test]
fn new_keeps_nonzero_pairs_unchanged() {
    let blade = UnitBasisBlade::new(3, 6).unwrap();
    let scaled = ScaledBasisBlade::new(-4, blade);
    assert!(!scaled.is_zero());
    assert_eq!(scaled.scale(), -4);
    assert_eq!(*scaled.unit_basis_blade(), blade);
}

#[test]
fn equal_zero_producing_inputs_compare_equal() {
    let blade = UnitBasisBlade::new(4, 0b1001).unwrap();
    let empty = UnitBasisBlade::zero(4).unwrap();
    let a = ScaledBasisBlade::new(0, blade);
    let b = ScaledBasisBlade::new(25, empty);
    let c = ScaledBasisBlade::zero(4).unwrap();
    assert_eq!(a, b);
    assert_eq!(b, c);
}

#[test]
fn lifting_a_unit_blade_scales_it_by_one() {
    let blade = UnitBasisBlade::new(3, 5).unwrap();
    let scaled = ScaledBasisBlade::from(blade);
    assert_eq!(scaled.scale(), 1);
    assert_eq!(*scaled.unit_basis_blade(), blade);

    let empty = UnitBasisBlade::zero(3).unwrap();
    let lifted: ScaledBasisBlade = empty.into();
    assert_eq!(lifted, ScaledBasisBlade::zero(3).unwrap());
}

#[test]
fn lifting_a_pair_goes_through_the_canonicalizing_constructor() {
    let blade = UnitBasisBlade::new(3, 5).unwrap();
    let scaled: ScaledBasisBlade = (7, blade).into();
    assert_eq!(scaled, ScaledBasisBlade::new(7, blade));
    assert_eq!(scaled.scale(), 7);

    let collapsed: ScaledBasisBlade = (0, blade).into();
    assert_eq!(collapsed, ScaledBasisBlade::zero(3).unwrap());
}
