use polynomials::{Polynomial, Render};

#[test]
fn test_display() {
    let poly = Polynomial::<i32>::from(vec![]);
    assert_eq!(poly.to_string(), "<empty polynomial>");
    let poly = Polynomial::from(vec![1]);
    assert_eq!(poly.to_string(), "1");
    let poly = Polynomial::from(vec![1, 2]);
    assert_eq!(poly.to_string(), "1 + 2*x");
    let poly = Polynomial::from(vec![1, 2, 3]);
    assert_eq!(poly.to_string(), "1 + 2*x + 3*x^2");
    let poly = Polynomial::from(vec![1, 2, 3, 4]);
    assert_eq!(poly.to_string(), "1 + 2*x + 3*x^2 + 4*x^3");
}

#[test]
fn display_prints_every_stored_coefficient() {
    let poly = Polynomial::from(vec![0, 1, 0, -1]);
    assert_eq!(poly.to_string(), "0 + 1*x + 0*x^2 + -1*x^3");
}

#[test]
fn display_of_extreme_values() {
    let poly = Polynomial::from(vec![i32::MIN, i32::MAX]);
    assert_eq!(poly.to_string(), "-2147483648 + 2147483647*x");
    let poly = Polynomial::from(vec![i64::MIN, 0, i64::MAX]);
    assert_eq!(poly.to_string(), "-9223372036854775808 + 0*x + 9223372036854775807*x^2");
}

#[test]
fn display_of_powers_with_several_digits() {
    let mut coefficients = vec![0; 12];
    coefficients[11] = 5;
    coefficients[10] = 7;
    let poly = Polynomial::from(coefficients);
    assert_eq!(
        poly.to_string(),
        "0 + 0*x + 0*x^2 + 0*x^3 + 0*x^4 + 0*x^5 + 0*x^6 + 0*x^7 + 0*x^8 + 0*x^9 + 7*x^10 + 5*x^11"
    );
}

#[test]
fn integer_text() {
    assert_eq!(0i32.render(), "0");
    assert_eq!((-120i32).render(), "-120");
    assert_eq!(1005i64.render(), "1005");
}
