use ga_blades::dimension::BladeError;
use ga_blades::dimension::Grade;
use ga_blades::ops::GeometricProduct;
use ga_blades::ops::OuterProduct;
use ga_blades::scaled_basis_blade::ScaledBasisBlade;
use ga_blades::unit_basis_blade::UnitBasisBlade;

fn blade(dim: u8, flags: &[bool]) -> UnitBasisBlade {
    UnitBasisBlade::from_membership(dim, &flags.to_vec()).unwrap()
}

#[test]
fn wedge_product_1() {
    let a = ScaledBasisBlade::new(1, blade(3, &[false, true, true]));
    let b = ScaledBasisBlade::new(1, blade(3, &[true, false, false]));

    assert_eq!(
        a.outer(&b).unwrap(),
        ScaledBasisBlade::new(1, blade(3, &[true, true, true]))
    );
}

#[test]
fn wedge_product_2() {
    let a = ScaledBasisBlade::new(1, blade(3, &[false, true, true]));
    let b = ScaledBasisBlade::new(1, blade(3, &[true, false, false]));

    assert_eq!(
        a.outer(&b).unwrap(),
        ScaledBasisBlade::new(1, blade(3, &[true, true, true]))
    );
}

#[test]
fn geometric_and_wedge_products_agree_end_to_end() {
    // A bivector spanning vectors 1 and 2 times the vector 0: positive sign,
    // since interleaving costs an even number of transpositions.
    let a = ScaledBasisBlade::new(1, blade(3, &[false, true, true]));
    let b = ScaledBasisBlade::new(1, blade(3, &[true, false, false]));
    let expected = ScaledBasisBlade::new(1, blade(3, &[true, true, true]));

    assert_eq!(a.geom(&b).unwrap(), expected);
    assert_eq!(a.outer(&b).unwrap(), expected);
}

#[test]
fn swapping_bivector_and_vector_keeps_the_sign() {
    // Swapping the operands keeps the support; the transposition count for
    // a grade-2 and a grade-1 operand has the same parity in both orders
    // (grade(a) * grade(b) = 2 is even), so the sign stays positive too:
    // here the merge is already sorted and costs zero transpositions.
    let a = ScaledBasisBlade::new(1, blade(3, &[false, true, true]));
    let b = ScaledBasisBlade::new(1, blade(3, &[true, false, false]));
    let swapped = b.geom(&a).unwrap();

    assert_eq!(swapped.unit_basis_blade().basis_vectors(), vec![true, true, true]);
    assert_eq!(swapped.scale(), 1);
    assert_eq!(swapped, a.geom(&b).unwrap());
}

#[test]
fn self_annihilation() {
    let b = ScaledBasisBlade::new(3, blade(3, &[false, true, true]));
    let zero = ScaledBasisBlade::zero(3).unwrap();
    assert_eq!(b.geom(&b).unwrap(), zero);
    assert_eq!(b.outer(&b).unwrap(), zero);

    let e0 = ScaledBasisBlade::new(1, blade(3, &[true, false, false]));
    assert_eq!(e0.geom(&e0).unwrap(), zero);
}

#[test]
fn antisymmetry_on_disjoint_vectors() {
    // Two grade-1 blades: swapping the operands flips the sign.
    let e0 = ScaledBasisBlade::new(1, blade(2, &[true, false]));
    let e1 = ScaledBasisBlade::new(1, blade(2, &[false, true]));

    let ab = e0.outer(&e1).unwrap();
    let ba = e1.outer(&e0).unwrap();
    assert_eq!(ab.scale(), 1);
    assert_eq!(ba.scale(), -1);
    assert_eq!(ab.unit_basis_blade(), ba.unit_basis_blade());
    assert_eq!(ab.unit_basis_blade().grade(), 2);
}

#[test]
fn product_grade_is_the_sum_of_disjoint_grades() {
    let a = ScaledBasisBlade::new(2, blade(5, &[true, true, false, false, false]));
    let b = ScaledBasisBlade::new(3, blade(5, &[false, false, true, false, true]));
    let p = a.geom(&b).unwrap();
    assert_eq!(p.unit_basis_blade().grade(), 4);
    assert_eq!(p.scale().abs(), 6);
}

#[test]
fn scalar_zero_absorbs_the_product() {
    let a = ScaledBasisBlade::new(0, blade(3, &[false, true, true]));
    let b = ScaledBasisBlade::new(5, blade(3, &[true, false, false]));
    let zero = ScaledBasisBlade::zero(3).unwrap();
    assert_eq!(a.geom(&b).unwrap(), zero);
    assert_eq!(b.geom(&a).unwrap(), zero);
    assert_eq!(a.outer(&b).unwrap(), zero);
    assert_eq!(b.outer(&a).unwrap(), zero);
}

#[test]
fn products_reject_mismatched_dimensions() {
    let a = ScaledBasisBlade::new(1, blade(3, &[true, false, false]));
    let b = ScaledBasisBlade::new(1, blade(2, &[false, true]));
    assert_eq!(a.geom(&b), Err(BladeError::DimensionMismatch));
    assert_eq!(a.outer(&b), Err(BladeError::DimensionMismatch));
}

#[test]
fn boundary_single_dimension() {
    let e0 = ScaledBasisBlade::new(1, blade(1, &[true]));
    let zero = ScaledBasisBlade::zero(1).unwrap();
    assert_eq!(e0.outer(&e0).unwrap(), zero);
    assert_eq!(e0.outer(&zero).unwrap(), zero);
}

#[test]
fn negative_scales_multiply_through() {
    let a = ScaledBasisBlade::new(-2, blade(4, &[true, false, false, false]));
    let b = ScaledBasisBlade::new(3, blade(4, &[false, false, true, false]));
    let p = a.geom(&b).unwrap();
    assert_eq!(p.scale(), -6);
    assert_eq!(p.unit_basis_blade().bitset(), 0b0101);
}

#[test]
fn sign_follows_the_transposition_parity() {
    // Merging {1} into {0, 2} costs one transposition: the sign flips.
    let a = ScaledBasisBlade::new(1, blade(3, &[true, false, true]));
    let b = ScaledBasisBlade::new(1, blade(3, &[false, true, false]));
    assert_eq!(a.geom(&b).unwrap().scale(), -1);
    // Merging {0, 2} past {1} also costs one transposition.
    assert_eq!(b.geom(&a).unwrap().scale(), -1);
}
