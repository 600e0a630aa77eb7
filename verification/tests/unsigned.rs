use polynomials::{
    AdditiveIdentity, Derivative, Fraction, Fractional, Polynomial, PolynomialEval, Render,
    ScalarMul, GCD,
};

#[test]
fn unsigned_construction_and_zero_test() {
    let poly = Polynomial::from(vec![3usize, 0, 0]);
    assert_eq!(poly.coefficients(), &vec![3usize]);
    assert_eq!(<usize as AdditiveIdentity>::zero(), 0);
    assert!(AdditiveIdentity::is_zero(&0usize));
    assert!(!AdditiveIdentity::is_zero(&9usize));
}

#[test]
fn unsigned_eval() {
    let poly = Polynomial::from(vec![1usize, 2, 3, 4]);
    assert_eq!((&poly).eval(&10), 4321);
    assert_eq!(poly.eval(&10), 4321);
    assert_eq!(Polynomial::<usize>::default().eval(&10), 0);
}

#[test]
fn unsigned_addition() {
    let short = Polynomial::from(vec![1usize, 2]);
    let long = Polynomial::from(vec![10usize, 20, 30]);
    assert_eq!(&short + &long, Polynomial::from(vec![11usize, 22, 30]));
    assert_eq!(long + short, Polynomial::from(vec![11usize, 22, 30]));
}

#[test]
fn unsigned_derivative() {
    let poly = Polynomial::from(vec![7usize, 1, 2, 3]);
    let borrowed: Polynomial<usize> = (&poly).derivative();
    assert_eq!(borrowed.coefficients(), &vec![1usize, 4, 9]);
    let owned: Polynomial<usize> = poly.derivative();
    assert_eq!(owned, borrowed);
    let constant: Polynomial<usize> = Polynomial::from(vec![5usize]).derivative();
    assert!(constant.is_empty());
    assert_eq!(6usize.scale(7), 42);
    assert_eq!(6usize.scale_ref(0), 0);
}

#[test]
fn unsigned_content_and_divisor() {
    assert_eq!(Polynomial::from(vec![6usize, 9, 3]).content(), 3);
    assert_eq!(Polynomial::from(vec![8usize]).content(), 8);
    assert_eq!(Polynomial::<usize>::default().content(), 0);
    assert_eq!(12usize.gcd(&18), 6);
    assert_eq!(0usize.gcd(&0), 0);
    assert_eq!(usize::MAX.gcd(&usize::MAX), usize::MAX);
}

#[test]
fn unsigned_text() {
    assert_eq!(Polynomial::from(vec![1usize, 2, 30]).to_string(), "1 + 2*x + 30*x^2");
    assert_eq!(1234567890usize.render(), "1234567890");
}

#[test]
fn unsigned_fractions() {
    let poly = Polynomial::from(vec![1usize, 2, 3]);
    let value = (&poly).eval(&Fraction { numer: 1usize, denom: 2 });
    assert_eq!(value, Fraction { numer: 11, denom: 4 });
    let value = poly.eval(&Fraction { numer: 2usize, denom: 3 });
    assert_eq!(value, Fraction { numer: 11, denom: 3 });
    assert_eq!(4usize.lift(), Fraction { numer: 4, denom: 1 });
    let mut q = Fraction { numer: 2usize, denom: 3 };
    <usize as Fractional>::mul_assign_fraction(&mut q, &Fraction { numer: 3, denom: 4 });
    assert_eq!(q, Fraction { numer: 1, denom: 2 });
    <usize as Fractional>::add_assign_integer(&mut q, 2);
    assert_eq!(q, Fraction { numer: 5, denom: 2 });
    <usize as Fractional>::add_assign_integer_ref(&mut q, &1);
    assert_eq!(q, Fraction { numer: 7, denom: 2 });
}
