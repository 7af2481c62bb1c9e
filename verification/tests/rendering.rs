use clifford::algebra::{Complex, PGA2, Real};
use clifford::basis::{Basis, NonzeroBasis};
use clifford::maybe::Maybe::{Just, Nothing};
use clifford::metric::{Metric, Square};
use clifford::sign::Sign;
use clifford::text::push_decimal;

#[test]
fn sign_renders_as_a_prefix() {
    assert_eq!(Sign::Pos.to_string(), "");
    assert_eq!(Sign::Neg.to_string(), "-");
}

#[test]
fn blades_render_in_e_notation() {
    let e01 = NonzeroBasis { sign: Sign::Pos, unit: [true, true, false] };
    let e2 = NonzeroBasis { sign: Sign::Neg, unit: [false, false, true] };
    assert_eq!(e01.to_string(), "e01");
    assert_eq!(e2.to_string(), "-e2");
    assert_eq!(Just(e01).to_string(), "e01");
    assert_eq!(Just(e2).to_string(), "-e2");
}

#[test]
fn pseudoscalar_renders_as_i() {
    let i: NonzeroBasis<3> = NonzeroBasis::pseudoscalar();
    assert_eq!(i.to_string(), "i");
    assert_eq!(i.neg().to_string(), "-i");
    let scalar: NonzeroBasis<0> = NonzeroBasis::one();
    assert_eq!(scalar.to_string(), "i");
}

#[test]
fn scalar_unit_renders_as_bare_e() {
    let one: NonzeroBasis<2> = NonzeroBasis::one();
    assert_eq!(one.to_string(), "e");
    assert_eq!(one.neg().to_string(), "-e");
}

#[test]
fn zero_renders_as_0() {
    let zero: Basis<4> = Nothing;
    assert_eq!(zero.to_string(), "0");
}

#[test]
fn indices_of_two_digits_render_in_decimal() {
    let mut unit = [false; 13];
    unit[3] = true;
    unit[10] = true;
    unit[12] = true;
    let b = NonzeroBasis { sign: Sign::Pos, unit };
    assert_eq!(b.to_string(), "e31012");
}

#[test]
fn decimal_numerals() {
    for (n, expected) in [(0usize, "0"), (7, "7"), (10, "10"), (19, "19"), (100, "100"), (4096, "4096")] {
        let mut out = String::from("x");
        push_decimal(&mut out, n);
        assert_eq!(out, format!("x{}", expected));
    }
    let mut out = String::new();
    push_decimal(&mut out, usize::MAX);
    assert_eq!(out, format!("{}", usize::MAX));
}

#[test]
fn metric_renders_one_entry_per_generator() {
    let complex: Metric<1> = Complex::metric();
    assert_eq!(complex.to_string(), "e0²=-1 ");
    let pga: Metric<3> = PGA2::metric();
    assert_eq!(pga.to_string(), "e0²=1 e1²=1 e2²=0 ");
    let real: Metric<0> = Real::metric();
    assert_eq!(real.to_string(), "");
}

#[test]
fn square_text() {
    assert_eq!(Square::Pos.as_str(), "1");
    assert_eq!(Square::Neg.as_str(), "-1");
    assert_eq!(Square::Zero.as_str(), "0");
}

#[test]
fn metric_lookup_by_axis() {
    let metric = Metric([Square::Neg, Square::Zero, Square::Pos]);
    assert_eq!(metric.get(0), Square::Neg);
    assert_eq!(metric.get(1), Square::Zero);
    assert_eq!(metric.get(2), Square::Pos);
}

#[test]
fn metrics_are_equal_when_every_square_agrees() {
    let metric = Metric([Square::Neg, Square::Zero, Square::Pos]);
    assert!(metric == Metric([Square::Neg, Square::Zero, Square::Pos]));
    assert!(metric != Metric([Square::Neg, Square::Zero, Square::Zero]));
    assert!(metric != Metric([Square::Pos, Square::Zero, Square::Pos]));
    let empty: Metric<0> = Metric([]);
    assert!(empty == Metric([]));
}
