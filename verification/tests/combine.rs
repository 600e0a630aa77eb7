use polynomials::combine::{pairwise_op_eq_move, pairwise_op_eq_ref, pairwise_op_ref_ref};
use polynomials::Polynomial;

#[test]
fn combine_borrowed_operands_by_subtraction() {
    let left = Polynomial::from(vec![10, 20, 30]);
    let right = Polynomial::from(vec![1, 2]);
    let difference = pairwise_op_ref_ref(&left, &right, |l: &i32, r: &i32| l - r, |l: &i32| *l, |r: &i32| -r);
    assert_eq!(difference.coefficients(), &vec![9, 18, 30]);
    let difference = pairwise_op_ref_ref(&right, &left, |l: &i32, r: &i32| l - r, |l: &i32| *l, |r: &i32| -r);
    assert_eq!(difference.coefficients(), &vec![-9, -18, -30]);
}

#[test]
fn combine_borrowed_operands_trims() {
    let left = Polynomial::from(vec![1, 2, 3]);
    let right = Polynomial::from(vec![5, 2, 3]);
    let difference = pairwise_op_ref_ref(&left, &right, |l: &i32, r: &i32| l - r, |l: &i32| *l, |r: &i32| -r);
    assert_eq!(difference.coefficients(), &vec![-4]);
    let nothing = pairwise_op_ref_ref(&left, &left, |l: &i32, r: &i32| l - r, |l: &i32| *l, |r: &i32| -r);
    assert!(nothing.is_empty());
}

#[test]
fn combine_into_another_coefficient_type() {
    let left = Polynomial::from(vec![1i32, 2]);
    let right = Polynomial::from(vec![10i32, 20, 30]);
    let wide: Polynomial<i64> = pairwise_op_ref_ref(
        &left,
        &right,
        |l: &i32, r: &i32| i64::from(*l) * i64::from(*r),
        |l: &i32| i64::from(*l),
        |r: &i32| i64::from(*r),
    );
    assert_eq!(wide.coefficients(), &vec![10i64, 40, 30]);
}

#[test]
fn combine_in_place_with_an_owned_operand() {
    let mut left = Polynomial::from(vec![10, 20, 30]);
    pairwise_op_eq_move(&mut left, Polynomial::from(vec![1, 2]), |l: &mut i32, r: i32| *l -= r, |l: &mut i32| *l *= 2, |r: i32| -r);
    assert_eq!(left.coefficients(), &vec![9, 18, 60]);
    let mut left = Polynomial::from(vec![1, 2]);
    pairwise_op_eq_move(&mut left, Polynomial::from(vec![10, 20, 30]), |l: &mut i32, r: i32| *l -= r, |l: &mut i32| *l *= 2, |r: i32| -r);
    assert_eq!(left.coefficients(), &vec![-9, -18, -30]);
}

#[test]
fn combine_in_place_with_a_borrowed_operand() {
    let right = Polynomial::from(vec![1, 2]);
    let mut left = Polynomial::from(vec![10, 20, 30]);
    pairwise_op_eq_ref(&mut left, &right, |l: &mut i32, r: &i32| *l -= *r, |l: &mut i32| *l *= 2, |r: &i32| -*r);
    assert_eq!(left.coefficients(), &vec![9, 18, 60]);
    let right = Polynomial::from(vec![10, 20, 30]);
    let mut left = Polynomial::from(vec![1, 2]);
    pairwise_op_eq_ref(&mut left, &right, |l: &mut i32, r: &i32| *l -= *r, |l: &mut i32| *l *= 2, |r: &i32| -*r);
    assert_eq!(left.coefficients(), &vec![-9, -18, -30]);
}

#[test]
fn combine_in_place_trims() {
    let mut left = Polynomial::from(vec![1, 2, 3]);
    pairwise_op_eq_move(&mut left, Polynomial::from(vec![0, 2, 3]), |l: &mut i32, r: i32| *l -= r, |_l: &mut i32| {}, |r: i32| -r);
    assert_eq!(left.coefficients(), &vec![1]);
    let mut left = Polynomial::from(vec![1, 2]);
    let right = Polynomial::from(vec![1, 2, 3]);
    pairwise_op_eq_ref(&mut left, &right, |l: &mut i32, r: &i32| *l -= *r, |_l: &mut i32| {}, |_r: &i32| 0);
    assert!(left.is_empty());
}
