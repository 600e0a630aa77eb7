use polynomials::{AdditiveIdentity, Polynomial};

#[test]
fn construction_drops_trailing_zeros() {
    let poly = Polynomial::from(vec![1, 0, 2, 0, 0]);
    assert_eq!(poly.coefficients(), &vec![1, 0, 2]);
    assert_eq!(poly.len(), 3);
}

#[test]
fn construction_keeps_inner_and_leading_zeros() {
    let poly = Polynomial::from(vec![0, 0, 7]);
    assert_eq!(poly.coefficients(), &vec![0, 0, 7]);
}

#[test]
fn construction_from_zeros_only_is_empty() {
    let poly = Polynomial::from(vec![0i64, 0, 0]);
    assert!(poly.is_empty());
    assert_eq!(poly.len(), 0);
    assert_eq!(poly, Polynomial::default());
}

#[test]
fn construction_from_nothing_is_empty() {
    let poly = Polynomial::<i32>::from(vec![]);
    assert!(poly.is_empty());
    assert_eq!(poly.into_coefficients(), Vec::<i32>::new());
}

#[test]
fn last_stored_coefficient_is_never_zero() {
    let inputs: Vec<Vec<i32>> = vec![
        vec![],
        vec![0],
        vec![3],
        vec![0, 3],
        vec![3, 0],
        vec![0, 3, 0, 0],
        vec![-1, 0, 0, 5, 0],
    ];
    for input in inputs {
        let poly = Polynomial::from(input);
        if let Some(last) = poly.coefficients().last() {
            assert!(!last.is_zero());
        }
    }
}

#[test]
fn integer_zero_and_zero_test() {
    assert_eq!(<i32 as AdditiveIdentity>::zero(), 0);
    assert_eq!(<i64 as AdditiveIdentity>::zero(), 0);
    assert!(AdditiveIdentity::is_zero(&0i32));
    assert!(!AdditiveIdentity::is_zero(&5i32));
    assert!(AdditiveIdentity::is_zero(&0i64));
    assert!(!AdditiveIdentity::is_zero(&-5i64));
}

#[test]
fn zero_polynomial_operations() {
    let zero = Polynomial::<i32>::zero();
    assert!(zero.is_empty());
    assert!(zero.is_zero());
    let mut poly = Polynomial::from(vec![1, 2, 3]);
    assert!(!poly.is_zero());
    poly.set_zero();
    assert!(poly.is_zero());
    assert!(poly.is_empty());
    assert_eq!(poly, zero);
}

#[test]
fn is_zero_looks_at_every_coefficient() {
    let mut poly = Polynomial::from(vec![4, 5]);
    for coefficient in poly.iter_mut() {
        *coefficient = 0;
    }
    assert_eq!(poly.len(), 2);
    assert!(poly.is_zero());
    let mut poly = Polynomial::from(vec![4, 5]);
    for coefficient in poly.iter_mut() {
        *coefficient -= 5;
    }
    assert!(!poly.is_zero());
}

#[test]
fn iteration_in_ascending_order() {
    let mut poly = Polynomial::from(vec![1i64, 2, 3]);
    let seen: Vec<i64> = poly.iter().copied().collect();
    assert_eq!(seen, vec![1, 2, 3]);
    let seen: Vec<i64> = (&poly).into_iter().copied().collect();
    assert_eq!(seen, vec![1, 2, 3]);
    for coefficient in &mut poly {
        *coefficient *= 10;
    }
    assert_eq!(poly.coefficients(), &vec![10, 20, 30]);
    let seen: Vec<i64> = poly.into_iter().collect();
    assert_eq!(seen, vec![10, 20, 30]);
}

#[test]
fn clone_is_equal() {
    let poly = Polynomial::from(vec![1, -2, 3]);
    let copy = poly.clone();
    assert_eq!(poly, copy);
    assert_ne!(poly, Polynomial::from(vec![1, -2]));
}
