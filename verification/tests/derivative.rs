use polynomials::{Derivative, Polynomial, ScalarMul};

#[test]
fn derivative_of_a_constant_is_empty() {
    let derivative: Polynomial<i32> = Polynomial::from(vec![5]).derivative();
    assert!(derivative.is_empty());
    let constant = Polynomial::from(vec![5]);
    let derivative: Polynomial<i32> = (&constant).derivative();
    assert!(derivative.is_empty());
}

#[test]
fn derivative_of_the_zero_polynomial_is_empty() {
    let derivative: Polynomial<i32> = Polynomial::<i32>::default().derivative();
    assert!(derivative.is_empty());
    let zero = Polynomial::<i64>::default();
    let derivative: Polynomial<i64> = (&zero).derivative();
    assert!(derivative.is_empty());
}

#[test]
fn derivative_multiplies_by_the_power() {
    let poly = Polynomial::from(vec![1, 2, 3, 4]);
    let expected = Polynomial::from(vec![2, 6, 12]);
    let borrowed: Polynomial<i32> = (&poly).derivative();
    assert_eq!(borrowed, expected);
    let mut poly = poly;
    let through_mut: Polynomial<i32> = (&mut poly).derivative();
    assert_eq!(through_mut, expected);
    let owned: Polynomial<i32> = poly.derivative();
    assert_eq!(owned, expected);
}

#[test]
fn derivative_of_wide_integers() {
    let poly = Polynomial::from(vec![7i64, 0, -5, 0, 1_000_000_000_000]);
    let derivative: Polynomial<i64> = poly.derivative();
    assert_eq!(derivative.coefficients(), &vec![0, -10, 0, 4_000_000_000_000]);
}

#[test]
fn derivative_of_a_sum_is_the_sum_of_the_derivatives() {
    let p = Polynomial::from(vec![1, 2, 3]);
    let q = Polynomial::from(vec![4, 5, -3, 8]);
    let of_sum: Polynomial<i32> = (&p + &q).derivative();
    let dp: Polynomial<i32> = (&p).derivative();
    let dq: Polynomial<i32> = (&q).derivative();
    assert_eq!(of_sum, dp + dq);
    assert_eq!(of_sum, Polynomial::from(vec![7, 0, 24]));
}

#[test]
fn derivative_of_a_sum_with_cancelled_leading_terms() {
    let p = Polynomial::from(vec![1, 1, 4]);
    let q = Polynomial::from(vec![0, -1, -4]);
    let of_sum: Polynomial<i32> = (&p + &q).derivative();
    let dp: Polynomial<i32> = (&p).derivative();
    let dq: Polynomial<i32> = (&q).derivative();
    assert!(of_sum.is_empty());
    assert_eq!(of_sum, dp + dq);
}

#[test]
fn scalar_multiples_of_integers() {
    assert_eq!(3i32.scale(4), 12);
    assert_eq!((-3i32).scale_ref(4), -12);
    assert_eq!(0i32.scale(usize::MAX), 0);
    assert_eq!(5i64.scale(0), 0);
    assert_eq!((-7i64).scale(6), -42);
    assert_eq!((-1i32).scale(i32::MAX as usize + 1), i32::MIN);
    assert_eq!(1i32.scale(i32::MAX as usize), i32::MAX);
}
