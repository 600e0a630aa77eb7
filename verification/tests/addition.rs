use polynomials::Polynomial;

#[test]
fn add_unequal_lengths() {
    let short = Polynomial::from(vec![1, 2]);
    let long = Polynomial::from(vec![10, 20, 30]);
    let expected = Polynomial::from(vec![11, 22, 30]);
    assert_eq!(&short + &long, expected);
    assert_eq!(&long + &short, expected);
    assert_eq!(short.clone() + &long, expected);
    assert_eq!(&short + long.clone(), expected);
    assert_eq!(long.clone() + &short, expected);
    assert_eq!(&long + short.clone(), expected);
    assert_eq!(short.clone() + long.clone(), expected);
    assert_eq!(long + short, expected);
}

#[test]
fn add_assign_unequal_lengths() {
    let mut poly = Polynomial::from(vec![1i64, 2]);
    poly.add_assign(Polynomial::from(vec![10, 20, 30]));
    assert_eq!(poly.coefficients(), &vec![11, 22, 30]);
    let mut poly = Polynomial::from(vec![10i64, 20, 30]);
    poly.add_assign(Polynomial::from(vec![1, 2]));
    assert_eq!(poly.coefficients(), &vec![11, 22, 30]);
    let mut poly = Polynomial::from(vec![1i64, 2]);
    poly.add_assign_ref(&Polynomial::from(vec![10, 20, 30]));
    assert_eq!(poly.coefficients(), &vec![11, 22, 30]);
    let mut poly = Polynomial::from(vec![10i64, 20, 30]);
    poly.add_assign_ref(&Polynomial::from(vec![1, 2]));
    assert_eq!(poly.coefficients(), &vec![11, 22, 30]);
}

#[test]
fn add_zero_polynomial_on_either_side() {
    let inputs: Vec<Vec<i32>> = vec![vec![], vec![7], vec![0, 1], vec![1, -2, 3]];
    for input in inputs {
        let poly = Polynomial::from(input);
        let zero = Polynomial::<i32>::default();
        assert_eq!(&poly + &zero, poly);
        assert_eq!(&zero + &poly, poly);
        assert_eq!(poly.clone() + zero.clone(), poly);
        assert_eq!(zero.clone() + poly.clone(), poly);
        assert_eq!(poly.clone() + &zero, poly);
        assert_eq!(&zero + poly.clone(), poly);
        let mut sum = poly.clone();
        sum.add_assign(Polynomial::default());
        assert_eq!(sum, poly);
        let mut sum = Polynomial::default();
        sum.add_assign_ref(&poly);
        assert_eq!(sum, poly);
    }
}

#[test]
fn add_trims_cancelled_leading_coefficients() {
    let left = Polynomial::from(vec![1, 2, 3]);
    let right = Polynomial::from(vec![1, -2, -3]);
    assert_eq!(&left + &right, Polynomial::from(vec![2]));
    assert_eq!(left.clone() + right.clone(), Polynomial::from(vec![2]));
    let opposite = Polynomial::from(vec![-1, -2, -3]);
    assert!((&left + &opposite).is_empty());
    let mut sum = left.clone();
    sum.add_assign_ref(&opposite);
    assert!(sum.is_empty());
    let mut sum = left;
    sum.add_assign(opposite);
    assert!(sum.is_empty());
}

#[test]
fn add_equal_lengths() {
    let left = Polynomial::from(vec![1i64, 2, 3]);
    let right = Polynomial::from(vec![4i64, 5, 6]);
    assert_eq!(left + right, Polynomial::from(vec![5, 7, 9]));
}
