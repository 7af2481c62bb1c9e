use clifford::algebra::Complex;
use clifford::basis::{Basis, NonzeroBasis};
use clifford::maybe::Maybe::{Just, Nothing};
use clifford::metric::Metric;
use clifford::sign::Sign;

type GA = Complex;

#[test]
fn test_complex_basis() {
    assert_eq!(GA::dim(), 1);
    assert_eq!(GA::basis_blade_count(), 2);

    let metric: Metric<1> = GA::metric();

    let i: Basis<1> = Just(NonzeroBasis {
        sign: Sign::Pos,
        unit: [true],
    });

    assert_eq!(
        i.geometric(i, metric),
        Just(NonzeroBasis::one().neg()),
        "i * i = -1"
    );
    assert_eq!(i.exterior(i, metric), Nothing, "i ∧ i = 0");
    assert_eq!(i.regressive(i, metric), i, "i ∨ i = i");
    assert_eq!(
        i.left_contraction(i, metric),
        Just(NonzeroBasis::one().neg()),
        "i >> i = -1"
    );
    assert_eq!(
        i.right_contraction(i, metric),
        Just(NonzeroBasis::one().neg()),
        "i << i = -1"
    );
    assert_eq!(
        i.inner(i, metric),
        Just(NonzeroBasis::one().neg()),
        "i | i = -1"
    );
    assert_eq!(
        i.scalar(i, metric),
        Just(NonzeroBasis::one().neg()),
        "i * i = -1"
    );
}

#[test]
fn main() {
    type GA = Complex;

    println!("Algebra Dimension: {}", GA::dim());
    println!("Blade count: {}", GA::basis_blade_count());

    let metric: Metric<1> = GA::metric();
    println!("Metric: {metric}", metric = metric.to_string());

    let a = NonzeroBasis {
        sign: Sign::Pos,
        unit: [true],
    };
    let b = NonzeroBasis {
        sign: Sign::Pos,
        unit: [true],
    };

    println!(
        "{a} {b} = {}",
        a.geometric(b, metric).to_string(),
        a = a.to_string(),
        b = b.to_string()
    );
    println!(
        "{a} ∧ {b} = {}",
        a.exterior(b, metric).to_string(),
        a = a.to_string(),
        b = b.to_string()
    );
    println!(
        "{a} ∨ {b} = {}",
        a.regressive(b, metric).to_string(),
        a = a.to_string(),
        b = b.to_string()
    );
    println!(
        "{a} >> {b} = {}",
        a.left_contraction(b, metric).to_string(),
        a = a.to_string(),
        b = b.to_string()
    );
    println!(
        "{a} << {b} = {}",
        a.right_contraction(b, metric).to_string(),
        a = a.to_string(),
        b = b.to_string()
    );
    println!(
        "{a} | {b} = {}",
        a.inner(b, metric).to_string(),
        a = a.to_string(),
        b = b.to_string()
    );
    println!(
        "{a} * {b} = {}",
        a.scalar(b, metric).to_string(),
        a = a.to_string(),
        b = b.to_string()
    );
}
