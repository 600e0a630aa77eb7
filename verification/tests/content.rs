use polynomials::{Polynomial, GCD};

#[test]
fn content_of_the_zero_polynomial_is_zero() {
    assert_eq!(Polynomial::<i32>::default().content(), 0);
    assert_eq!(Polynomial::<i64>::from(vec![0, 0]).content(), 0);
}

#[test]
fn content_of_several_coefficients() {
    assert_eq!(Polynomial::from(vec![6, 9, 3]).content(), 3);
    assert_eq!(Polynomial::from(vec![6, 9]).content(), 3);
    assert_eq!(Polynomial::from(vec![12i64, 18, 30]).content(), 6);
    assert_eq!(Polynomial::from(vec![4, 9]).content(), 1);
    assert_eq!(Polynomial::from(vec![0, 0, 5]).content(), 5);
}

#[test]
fn content_of_one_coefficient_is_that_coefficient() {
    assert_eq!(Polynomial::from(vec![7]).content(), 7);
    assert_eq!(Polynomial::from(vec![-7]).content(), -7);
    assert_eq!(Polynomial::from(vec![i64::MIN]).content(), i64::MIN);
}

#[test]
fn content_of_negative_coefficients_is_not_negative() {
    assert_eq!(Polynomial::from(vec![-6, 9]).content(), 3);
    assert_eq!(Polynomial::from(vec![-6, -9]).content(), 3);
    assert_eq!(Polynomial::from(vec![6i64, -4]).content(), 2);
}

#[test]
fn integer_divisors() {
    assert_eq!(12i32.gcd(&18), 6);
    assert_eq!(18i32.gcd(&12), 6);
    assert_eq!(0i32.gcd(&5), 5);
    assert_eq!(5i32.gcd(&0), 5);
    assert_eq!(0i32.gcd(&0), 0);
    assert_eq!((-12i32).gcd(&18), 6);
    assert_eq!(i32::MIN.gcd(&6), 2);
    assert_eq!(17i64.gcd(&5), 1);
    assert_eq!(i64::MIN.gcd(&i64::MAX), 1);
    assert_eq!(1_000_000_007i64.gcd(&1_000_000_007), 1_000_000_007);
}
