use polynomials::{Polynomial, PolynomialEval};

#[test]
fn test_eval() {
    let poly = Polynomial::from(vec![]);
    assert_eq!(poly.eval(&10), 0);
    let poly = Polynomial::from(vec![1]);
    assert_eq!(poly.eval(&10), 1);
    let poly = Polynomial::from(vec![1, 2]);
    assert_eq!(poly.eval(&10), 21);
    let poly = Polynomial::from(vec![1, 2, 3]);
    assert_eq!(poly.eval(&10), 321);
    let poly = Polynomial::from(vec![1, 2, 3, 4]);
    assert_eq!(poly.eval(&10), 4321);
}

#[test]
fn eval_borrowed_and_through_a_mutable_reference() {
    let mut poly = Polynomial::from(vec![1, 2, 3, 4]);
    assert_eq!((&poly).eval(&10), 4321);
    assert_eq!((&mut poly).eval(&10), 4321);
    assert_eq!(poly.eval(&10), 4321);
}

#[test]
fn eval_of_the_zero_polynomial_is_zero() {
    assert_eq!(Polynomial::<i32>::default().eval(&i32::MAX), 0);
    let zero = Polynomial::<i64>::default();
    assert_eq!((&zero).eval(&i64::MIN), 0);
}

#[test]
fn eval_with_negative_values() {
    let poly = Polynomial::from(vec![-1i64, 0, 2, -3]);
    assert_eq!((&poly).eval(&-2), 31);
    assert_eq!((&poly).eval(&0), -1);
    assert_eq!(poly.eval(&1), -2);
}

#[test]
fn eval_of_wide_integers() {
    let poly = Polynomial::from(vec![1i64, 1, 1]);
    assert_eq!(poly.eval(&1_000_000), 1_000_001_000_001);
}
