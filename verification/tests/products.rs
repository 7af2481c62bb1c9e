use clifford::algebra::{Complex, Dual, PGA2, VGA2, VGA3};
use clifford::basis::{Basis, NonzeroBasis};
use clifford::maybe::Maybe::{self, Just, Nothing};
use clifford::metric::{Metric, Square};
use clifford::sign::Sign;

fn blade<const N: usize>(sign: Sign, unit: [bool; N]) -> NonzeroBasis<N> {
    NonzeroBasis { sign, unit }
}

fn pos<const N: usize>(unit: [bool; N]) -> Basis<N> {
    Just(blade(Sign::Pos, unit))
}

fn neg<const N: usize>(unit: [bool; N]) -> Basis<N> {
    Just(blade(Sign::Neg, unit))
}

#[test]
fn complex_pseudoscalar_products() {
    let metric: Metric<1> = Complex::metric();
    let i: Basis<1> = Basis::pseudoscalar();
    let minus_one: Basis<1> = Basis::one().neg();
    assert_eq!(i, pos([true]));
    assert_eq!(minus_one, neg([false]));
    assert_eq!(i.geometric(i, metric), minus_one);
    assert_eq!(i.exterior(i, metric), Basis::zero());
    assert_eq!(i.regressive(i, metric), i);
    assert_eq!(i.left_contraction(i, metric), minus_one);
    assert_eq!(i.right_contraction(i, metric), minus_one);
    assert_eq!(i.inner(i, metric), minus_one);
    assert_eq!(i.dot(i, metric), minus_one);
    assert_eq!(i.scalar(i, metric), minus_one);
}

#[test]
fn euclidean_plane_generators() {
    let metric: Metric<2> = VGA2::metric();
    let e0 = blade(Sign::Pos, [true, false]);
    let e1 = blade(Sign::Pos, [false, true]);
    let e01 = blade(Sign::Pos, [true, true]);
    assert_eq!(e0.geometric(e1, metric), Just(e01));
    assert_eq!(e1.geometric(e0, metric), Just(e01.neg()));
    assert_eq!(e0.geometric(e0, metric), Just(NonzeroBasis::one()));
    assert_eq!(e01.geometric(e01, metric), Just(NonzeroBasis::one().neg()));
}

#[test]
fn zero_absorbs_every_product() {
    let metric: Metric<3> = VGA3::metric();
    let zero: Basis<3> = Basis::zero();
    let blades = [pos([false, false, false]), pos([true, false, true]), neg([true, true, true])];
    for a in blades {
        assert_eq!(a.geometric(zero, metric), Nothing);
        assert_eq!(zero.geometric(a, metric), Nothing);
        assert_eq!(a.exterior(zero, metric), Nothing);
        assert_eq!(zero.exterior(a, metric), Nothing);
        assert_eq!(a.regressive(zero, metric), Nothing);
        assert_eq!(zero.regressive(a, metric), Nothing);
        assert_eq!(a.left_contraction(zero, metric), Nothing);
        assert_eq!(zero.left_contraction(a, metric), Nothing);
        assert_eq!(a.right_contraction(zero, metric), Nothing);
        assert_eq!(zero.right_contraction(a, metric), Nothing);
        assert_eq!(a.inner(zero, metric), Nothing);
        assert_eq!(zero.inner(a, metric), Nothing);
        assert_eq!(a.dot(zero, metric), Nothing);
        assert_eq!(zero.dot(a, metric), Nothing);
        assert_eq!(a.scalar(zero, metric), Nothing);
        assert_eq!(zero.scalar(a, metric), Nothing);
    }
    assert_eq!(zero.geometric(zero, metric), Nothing);
}

#[test]
fn zero_stays_zero_under_unary_operators() {
    let zero: Basis<2> = Basis::zero();
    assert_eq!(zero, Nothing);
    assert_eq!(zero.grade(), Nothing);
    assert_eq!(zero.anti_grade(), Nothing);
    assert_eq!(zero.neg(), Nothing);
    assert_eq!(zero.dual(), Nothing);
    assert_eq!(zero.reverse(), Nothing);
    assert_eq!(zero.involute(), Nothing);
    assert_eq!(zero.conjugate(), Nothing);
}

#[test]
fn shared_null_factor_annihilates() {
    let metric: Metric<3> = PGA2::metric();
    assert_eq!(metric, Metric([Square::Pos, Square::Pos, Square::Zero]));
    let e2 = blade(Sign::Pos, [false, false, true]);
    let e02 = blade(Sign::Pos, [true, false, true]);
    let e12 = blade(Sign::Neg, [false, true, true]);
    let e012 = blade(Sign::Pos, [true, true, true]);
    assert_eq!(e2.geometric(e2, metric), Nothing);
    assert_eq!(e02.geometric(e12, metric), Nothing);
    assert_eq!(e12.geometric(e02, metric), Nothing);
    assert_eq!(e012.geometric(e2, metric), Nothing);
    assert_eq!(e02.scalar(e02, metric), Nothing);
    // A shared factor that does not square to zero leaves the product alone.
    let e0 = blade(Sign::Pos, [true, false, false]);
    assert_eq!(e02.geometric(e0, metric), Just(blade(Sign::Neg, [false, false, true])));

    let dual: Metric<1> = Dual::metric();
    let epsilon = blade(Sign::Pos, [true]);
    assert_eq!(epsilon.geometric(epsilon, dual), Nothing);
}

#[test]
fn negative_square_flips_the_sign() {
    let metric = Metric([Square::Pos, Square::Neg, Square::Neg]);
    let e1 = blade(Sign::Pos, [false, true, false]);
    let e12 = blade(Sign::Pos, [false, true, true]);
    let e012 = blade(Sign::Pos, [true, true, true]);
    assert_eq!(e1.geometric(e1, metric), Just(NonzeroBasis::one().neg()));
    // e12 e12 = e1 e2 e1 e2 = -e1 e1 e2 e2 = -(-1)(-1) = -1
    assert_eq!(e12.geometric(e12, metric), Just(NonzeroBasis::one().neg()));
    // e012 e012: three transpositions, two negative squares
    assert_eq!(e012.geometric(e012, metric), Just(NonzeroBasis::one().neg()));
    // the signs of the operands multiply
    assert_eq!(e1.neg().geometric(e1, metric), Just(NonzeroBasis::one()));
    assert_eq!(e1.neg().geometric(e1.neg(), metric), Just(NonzeroBasis::one().neg()));
}

#[test]
fn transpositions_count_lower_factors_of_the_right_operand() {
    let metric: Metric<4> = Metric([Square::Pos; 4]);
    let e3 = blade(Sign::Pos, [false, false, false, true]);
    let e012 = blade(Sign::Pos, [true, true, true, false]);
    let e02 = blade(Sign::Pos, [true, false, true, false]);
    let e13 = blade(Sign::Pos, [false, true, false, true]);
    // e3 passes three factors
    assert_eq!(e3.geometric(e012, metric), Just(blade(Sign::Neg, [true; 4])));
    assert_eq!(e012.geometric(e3, metric), Just(blade(Sign::Pos, [true; 4])));
    // e0 e2 e1 e3: e2 passes e1
    assert_eq!(e02.geometric(e13, metric), Just(blade(Sign::Neg, [true; 4])));
    // e1 e3 e0 e2: e1 passes e0, e3 passes e0 and e2
    assert_eq!(e13.geometric(e02, metric), Just(blade(Sign::Neg, [true; 4])));
}

#[test]
fn exterior_keeps_disjoint_blades_only() {
    let metric: Metric<3> = VGA3::metric();
    let e0 = blade(Sign::Pos, [true, false, false]);
    let e1 = blade(Sign::Pos, [false, true, false]);
    let e01 = blade(Sign::Pos, [true, true, false]);
    let e2 = blade(Sign::Pos, [false, false, true]);
    assert_eq!(e0.exterior(e1, metric), Just(e01));
    assert_eq!(e1.exterior(e0, metric), Just(e01.neg()));
    assert_eq!(e0.exterior(e0, metric), Nothing);
    assert_eq!(e01.exterior(e1, metric), Nothing);
    assert_eq!(e01.exterior(e2, metric), Just(NonzeroBasis::pseudoscalar()));
    assert_eq!(e2.exterior(e01, metric), Just(NonzeroBasis::pseudoscalar()));
    assert_eq!(NonzeroBasis::one().exterior(e01, metric), Just(e01));
}

#[test]
fn distinct_generators_anticommute() {
    let metric: Metric<4> = Metric([Square::Pos; 4]);
    for i in 0..4 {
        for j in 0..4 {
            if i == j {
                continue;
            }
            let mut a = [false; 4];
            a[i] = true;
            let mut b = [false; 4];
            b[j] = true;
            let ei = pos(a);
            let ej = pos(b);
            assert_eq!(ei.exterior(ej, metric), ej.exterior(ei, metric).neg());
            assert!(matches!(ei.exterior(ej, metric), Just(_)));
        }
    }
}

#[test]
fn contractions_lower_the_grade() {
    let metric: Metric<3> = VGA3::metric();
    let e0 = blade(Sign::Pos, [true, false, false]);
    let e1 = blade(Sign::Pos, [false, true, false]);
    let e2 = blade(Sign::Pos, [false, false, true]);
    let e01 = blade(Sign::Pos, [true, true, false]);
    // e0 >> e01 = e1, but e01 has too high a grade to be contracted onto e0
    assert_eq!(e0.left_contraction(e01, metric), Just(e1));
    assert_eq!(e01.left_contraction(e0, metric), Nothing);
    assert_eq!(e2.left_contraction(e01, metric), Nothing);
    // e01 << e0 = -e1
    assert_eq!(e01.right_contraction(e0, metric), Just(e1.neg()));
    assert_eq!(e0.right_contraction(e01, metric), Nothing);
    // e01 << e1 = e0
    assert_eq!(e01.right_contraction(e1, metric), Just(e0));
    // both contractions of a blade with itself are its square
    assert_eq!(e01.left_contraction(e01, metric), Just(NonzeroBasis::one().neg()));
    assert_eq!(e01.right_contraction(e01, metric), Just(NonzeroBasis::one().neg()));
    // a scalar contracts onto anything
    assert_eq!(NonzeroBasis::one().left_contraction(e01, metric), Just(e01));
    assert_eq!(e01.right_contraction(NonzeroBasis::one(), metric), Just(e01));
}

#[test]
fn inner_excludes_scalars_and_dot_does_not() {
    let metric: Metric<3> = VGA3::metric();
    let one: NonzeroBasis<3> = NonzeroBasis::one();
    let e0 = blade(Sign::Pos, [true, false, false]);
    let e1 = blade(Sign::Pos, [false, true, false]);
    let e01 = blade(Sign::Pos, [true, true, false]);
    assert_eq!(one.inner(e0, metric), Nothing);
    assert_eq!(e0.inner(one, metric), Nothing);
    assert_eq!(one.inner(one, metric), Nothing);
    assert_eq!(one.dot(e0, metric), Just(e0));
    assert_eq!(e0.dot(one, metric), Just(e0));
    assert_eq!(one.dot(one, metric), Just(one));
    // on blades of positive grade the two agree
    assert_eq!(e0.inner(e01, metric), Just(e1));
    assert_eq!(e0.dot(e01, metric), Just(e1));
    assert_eq!(e01.inner(e0, metric), Just(e1.neg()));
    assert_eq!(e01.dot(e0, metric), Just(e1.neg()));
    assert_eq!(e0.inner(e1, metric), Nothing);
    assert_eq!(e0.dot(e1, metric), Nothing);
    assert_eq!(e0.inner(e0, metric), Just(one));
}

#[test]
fn scalar_product_keeps_grade_zero() {
    let metric: Metric<3> = VGA3::metric();
    let e0 = blade(Sign::Pos, [true, false, false]);
    let e1 = blade(Sign::Pos, [false, true, false]);
    let e01 = blade(Sign::Pos, [true, true, false]);
    assert_eq!(e0.scalar(e0, metric), Just(NonzeroBasis::one()));
    assert_eq!(e0.scalar(e1, metric), Nothing);
    assert_eq!(e01.scalar(e01, metric), Just(NonzeroBasis::one().neg()));
    // rev(A) * A is the squared norm
    assert_eq!(e01.reverse().scalar(e01, metric), Just(NonzeroBasis::one()));
}

#[test]
fn regressive_is_the_dual_of_the_exterior_of_duals() {
    let metric: Metric<3> = VGA3::metric();
    let e1 = blade(Sign::Pos, [false, true, false]);
    let e01 = blade(Sign::Pos, [true, true, false]);
    let e12 = blade(Sign::Pos, [false, true, true]);
    let i: NonzeroBasis<3> = NonzeroBasis::pseudoscalar();
    // J(e01) = e2, J(e12) = e0, e2 ^ e0 = -e02, J(-e02) = -e1
    assert_eq!(e01.regressive(e12, metric), Just(e1.neg()));
    assert_eq!(e12.regressive(e01, metric), Just(e1));
    assert_eq!(
        e01.regressive(e12, metric),
        Just(e01.dual()).exterior(Just(e12.dual()), metric).dual()
    );
    // the pseudoscalar is the unit of the regressive product
    assert_eq!(i.regressive(e01, metric), Just(e01));
    assert_eq!(e01.regressive(i, metric), Just(e01));
    // blades that do not span the space meet in zero
    assert_eq!(e1.regressive(e01, metric), Nothing);
}

#[test]
fn grade_counts_the_factors() {
    let one: NonzeroBasis<5> = NonzeroBasis::one();
    let i: NonzeroBasis<5> = NonzeroBasis::pseudoscalar();
    let b = blade(Sign::Neg, [true, false, true, true, false]);
    assert_eq!(one.grade(), 0);
    assert_eq!(one.anti_grade(), 5);
    assert_eq!(i.grade(), 5);
    assert_eq!(i.anti_grade(), 0);
    assert_eq!(b.grade(), 3);
    assert_eq!(b.anti_grade(), 2);
    assert_eq!(Just(b).grade(), Just(3));
    assert_eq!(Just(b).anti_grade(), Just(2));
    let scalar: NonzeroBasis<0> = NonzeroBasis::one();
    assert_eq!(scalar.grade(), 0);
    assert_eq!(scalar.anti_grade(), 0);
    assert_eq!(scalar, NonzeroBasis::pseudoscalar());
}

#[test]
fn grade_lies_between_zero_and_the_dimension() {
    for bits in 0..16u32 {
        let unit = [bits & 1 != 0, bits & 2 != 0, bits & 4 != 0, bits & 8 != 0];
        let b = blade(Sign::Pos, unit);
        assert!(b.grade() <= 4);
        assert_eq!(b.grade() as u32, bits.count_ones());
        assert_eq!(b.grade() + b.anti_grade(), 4);
    }
}

#[test]
fn dual_complements_the_factors() {
    let b = blade(Sign::Neg, [true, false, true, true, false]);
    assert_eq!(b.dual(), blade(Sign::Neg, [false, true, false, false, true]));
    assert_eq!(b.dual().dual(), b);
    assert_eq!(b.dual().grade(), b.anti_grade());
    let one: NonzeroBasis<3> = NonzeroBasis::one();
    assert_eq!(one.dual(), NonzeroBasis::pseudoscalar());
    assert_eq!(Just(b).dual(), Just(b.dual()));
}

#[test]
fn reverse_flips_grades_two_and_three_modulo_four() {
    let mut unit = [false; 9];
    let expected = [false, false, true, true, false, false, true, true, false, false];
    for grade in 0..=9 {
        let b = blade(Sign::Pos, unit);
        assert_eq!(b.grade(), grade);
        let flipped = b.reverse().sign == Sign::Neg;
        assert_eq!(flipped, expected[grade], "grade {}", grade);
        assert_eq!(flipped, (grade * grade.saturating_sub(1) / 2) % 2 == 1);
        assert_eq!(b.reverse().unit, b.unit);
        assert_eq!(b.reverse().reverse(), b);
        assert_eq!(Just(b).reverse(), Just(b.reverse()));
        if grade < 9 {
            unit[grade] = true;
        }
    }
}

#[test]
fn involute_flips_odd_grades() {
    let mut unit = [false; 6];
    for grade in 0..=6 {
        let b = blade(Sign::Neg, unit);
        let expected = if grade % 2 == 1 { Sign::Pos } else { Sign::Neg };
        assert_eq!(b.involute(), blade(expected, unit));
        assert_eq!(b.involute().involute(), b);
        assert_eq!(Just(b).involute(), Just(b.involute()));
        if grade < 6 {
            unit[grade] = true;
        }
    }
}

#[test]
fn conjugate_is_involution_after_reversion() {
    let mut unit = [false; 6];
    // grade:     0      1     2     3      4      5     6
    let flips = [false, true, true, false, false, true, true];
    for grade in 0..=6 {
        let b = blade(Sign::Pos, unit);
        assert_eq!(b.conjugate(), b.reverse().involute());
        assert_eq!(b.conjugate().sign == Sign::Neg, flips[grade], "grade {}", grade);
        assert_eq!(b.conjugate().conjugate(), b);
        assert_eq!(Just(b).conjugate(), Just(b.conjugate()));
        if grade < 6 {
            unit[grade] = true;
        }
    }
}

#[test]
fn neg_flips_the_sign_only() {
    let b = blade(Sign::Pos, [true, false]);
    assert_eq!(b.neg(), blade(Sign::Neg, [true, false]));
    assert_eq!(b.neg().neg(), b);
    assert_eq!(Just(b).neg(), Just(b.neg()));
}

#[test]
fn geometric_product_is_associative_on_a_small_algebra() {
    let metric = Metric([Square::Pos, Square::Neg, Square::Zero]);
    let mut blades: Vec<Basis<3>> = vec![Nothing];
    for bits in 0..8u32 {
        let unit = [bits & 1 != 0, bits & 2 != 0, bits & 4 != 0];
        blades.push(pos(unit));
        blades.push(neg(unit));
    }
    for a in &blades {
        for b in &blades {
            for c in &blades {
                assert_eq!(
                    a.geometric(*b, metric).geometric(*c, metric),
                    a.geometric(b.geometric(*c, metric), metric)
                );
            }
        }
    }
}

#[test]
fn reversion_reverses_the_geometric_product() {
    let metric = Metric([Square::Pos, Square::Neg, Square::Pos, Square::Zero]);
    for x in 0..16u32 {
        for y in 0..16u32 {
            let a = pos([x & 1 != 0, x & 2 != 0, x & 4 != 0, x & 8 != 0]);
            let b = neg([y & 1 != 0, y & 2 != 0, y & 4 != 0, y & 8 != 0]);
            assert_eq!(
                a.geometric(b, metric).reverse(),
                b.reverse().geometric(a.reverse(), metric)
            );
        }
    }
}

#[test]
fn maybe_holds_any_value() {
    let just: Maybe<u8> = Just(3);
    let nothing: Maybe<u8> = Nothing;
    assert_ne!(just, nothing);
    assert_eq!(just, Maybe::from_output(3));
    assert_eq!(nothing, Maybe::from_residual(()));
}

#[test]
fn new_blades_are_positive() {
    let b = NonzeroBasis::new([true, false, true]);
    assert_eq!(b.sign, Sign::Pos);
    assert_eq!(b.unit, [true, false, true]);
    assert_eq!(b, blade(Sign::Pos, [true, false, true]));
}

#[test]
fn blades_are_equal_when_sign_and_factors_agree() {
    let a = blade(Sign::Pos, [true, false, true]);
    assert!(a == blade(Sign::Pos, [true, false, true]));
    assert!(a != blade(Sign::Neg, [true, false, true]));
    assert!(a != blade(Sign::Pos, [true, true, true]));
    assert!(a != blade(Sign::Pos, [true, false, false]));
    assert!(a != blade(Sign::Pos, [false, false, true]));
    let zero: Basis<3> = Nothing;
    assert!(zero == Basis::zero());
    assert!(Just(a) == Just(a));
    assert!(Just(a) != zero);
    assert!(zero != Just(a));
    assert!(Just(a) != Just(a.neg()));
    let scalar: NonzeroBasis<0> = NonzeroBasis::one();
    assert!(scalar == NonzeroBasis::new([]));
    assert!(scalar != scalar.neg());
}
