use num_rational::Ratio;
use polynomials::{Fraction, Fractional, Polynomial, PolynomialEval};

fn as_ratio(fraction: Fraction<i32>) -> Ratio<i32> {
    Ratio::new_raw(fraction.numer, fraction.denom)
}

#[test]
fn eval_at_a_fraction() {
    let poly = Polynomial::from(vec![1, 2, 3]);
    let half = Fraction { numer: 1, denom: 2 };
    let value = (&poly).eval(&half);
    assert_eq!(value, Fraction { numer: 11, denom: 4 });
    assert_eq!(as_ratio(value), Ratio::new(11, 4));
    let value = poly.eval(&half);
    assert_eq!(value, Fraction { numer: 11, denom: 4 });
}

#[test]
fn eval_of_the_zero_polynomial_at_a_fraction_is_zero() {
    let third = Fraction { numer: 1i32, denom: 3 };
    let value = Polynomial::<i32>::default().eval(&third);
    assert_eq!(value, Fraction { numer: 0, denom: 1 });
    let zero = Polynomial::<i64>::default();
    let value = (&zero).eval(&Fraction { numer: 1i64, denom: 3 });
    assert_eq!(value, Fraction { numer: 0, denom: 1 });
}

#[test]
fn eval_of_a_constant_at_a_fraction_is_the_constant() {
    let poly = Polynomial::from(vec![-9]);
    let value = poly.eval(&Fraction { numer: 5, denom: 7 });
    assert_eq!(value, Fraction { numer: -9, denom: 1 });
}

#[test]
fn eval_at_a_fraction_cancels_common_factors() {
    let poly = Polynomial::from(vec![0i64, 0, 4]);
    let value = (&poly).eval(&Fraction { numer: -3, denom: 2 });
    assert_eq!(value, Fraction { numer: 9, denom: 1 });
    let poly = Polynomial::from(vec![1i64, 1, 1, 1]);
    let value = poly.eval(&Fraction { numer: 2, denom: 3 });
    assert_eq!(value, Fraction { numer: 65, denom: 27 });
}

#[test]
fn eval_at_a_fraction_agrees_with_ratio_arithmetic() {
    let coefficients = vec![3, -1, 4, -1, 5];
    let poly = Polynomial::from(coefficients.clone());
    let point = Fraction { numer: -2, denom: 5 };
    let x = Ratio::new(-2, 5);
    let mut expected = Ratio::from_integer(0);
    let mut power = Ratio::from_integer(1);
    for coefficient in coefficients {
        expected += power * coefficient;
        power *= x;
    }
    assert_eq!(as_ratio((&poly).eval(&point)), expected);
    let mut poly = poly;
    assert_eq!(as_ratio((&mut poly).eval(&point)), expected);
}

#[test]
fn fraction_operations_of_integers() {
    assert_eq!(5i32.lift(), Fraction { numer: 5, denom: 1 });
    assert_eq!((-5i64).lift_ref(), Fraction { numer: -5, denom: 1 });
    assert_eq!(<i32 as Fractional>::zero_fraction(), Fraction { numer: 0, denom: 1 });
    let mut q = Fraction { numer: 2i32, denom: 3 };
    <i32 as Fractional>::mul_assign_fraction(&mut q, &Fraction { numer: 3, denom: 4 });
    assert_eq!(q, Fraction { numer: 1, denom: 2 });
    <i32 as Fractional>::add_assign_integer(&mut q, 2);
    assert_eq!(q, Fraction { numer: 5, denom: 2 });
    <i32 as Fractional>::add_assign_integer_ref(&mut q, &-3);
    assert_eq!(q, Fraction { numer: -1, denom: 2 });
    let mut q = Fraction { numer: -4i64, denom: 9 };
    <i64 as Fractional>::mul_assign_fraction(&mut q, &Fraction { numer: 3, denom: 2 });
    assert_eq!(q, Fraction { numer: -2, denom: 3 });
    <i64 as Fractional>::add_assign_integer(&mut q, 1);
    assert_eq!(q, Fraction { numer: 1, denom: 3 });
    <i64 as Fractional>::add_assign_integer_ref(&mut q, &-1);
    assert_eq!(q, Fraction { numer: -2, denom: 3 });
}
