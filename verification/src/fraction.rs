//! Exact fractions, and evaluation at a rational point.

use vstd::prelude::*;
use crate::eval::PolynomialEval;
use crate::polynomial::Polynomial;

verus! {

/// The fraction `numer / denom`.
///
/// The operations work on fractions in lowest terms with a positive
/// denominator, and return such fractions.
#[derive(Clone, Copy, PartialEq, Eq, Debug)]
pub struct Fraction<T> {
    pub numer: T,
    pub denom: T,
}

/// An integer type with its exact fractions.
pub trait Fractional: Sized {
    /// Whether a fraction is in lowest terms with a positive denominator.
    spec fn in_lowest_terms(q: Fraction<Self>) -> bool;

    /// The fraction that equals an integer.
    spec fn lift_spec(self) -> Fraction<Self>;

    /// The fraction zero.
    spec fn zero_fraction_spec() -> Fraction<Self>;

    /// Whether the product of two fractions can be computed.
    spec fn times_defined(q: Fraction<Self>, x: Fraction<Self>) -> bool;

    /// The product of two fractions.
    spec fn times(q: Fraction<Self>, x: Fraction<Self>) -> Fraction<Self>;

    /// Whether the sum of a fraction and an integer can be computed.
    spec fn plus_defined(q: Fraction<Self>, c: Self) -> bool;

    /// The sum of a fraction and an integer.
    spec fn plus(q: Fraction<Self>, c: Self) -> Fraction<Self>;

    /// Turns an integer into the fraction that equals it.
    fn lift(self) -> (q: Fraction<Self>)
        ensures
            q == self.lift_spec(),
            Self::in_lowest_terms(q),
    ;

    /// Turns a borrowed integer into the fraction that equals it.
    fn lift_ref(&self) -> (q: Fraction<Self>)
        ensures
            q == self.lift_spec(),
            Self::in_lowest_terms(q),
    ;

    /// Returns the fraction zero.
    fn zero_fraction() -> (q: Fraction<Self>)
        ensures
            q == Self::zero_fraction_spec(),
            Self::in_lowest_terms(q),
    ;

    /// Multiplies a fraction by a borrowed one.
    fn mul_assign_fraction(q: &mut Fraction<Self>, x: &Fraction<Self>)
        requires
            Self::in_lowest_terms(*old(q)),
            Self::in_lowest_terms(*x),
            Self::times_defined(*old(q), *x),
        ensures
            *final(q) == Self::times(*old(q), *x),
            Self::in_lowest_terms(*final(q)),
    ;

    /// Adds an owned integer to a fraction.
    fn add_assign_integer(q: &mut Fraction<Self>, c: Self)
        requires
            Self::in_lowest_terms(*old(q)),
            Self::plus_defined(*old(q), c),
        ensures
            *final(q) == Self::plus(*old(q), c),
            Self::in_lowest_terms(*final(q)),
    ;

    /// Adds a borrowed integer to a fraction.
    fn add_assign_integer_ref(q: &mut Fraction<Self>, c: &Self)
        requires
            Self::in_lowest_terms(*old(q)),
            Self::plus_defined(*old(q), *c),
        ensures
            *final(q) == Self::plus(*old(q), *c),
            Self::in_lowest_terms(*final(q)),
    ;
}

/// The value of the coefficient sequence `s` at the fraction `x` by Horner's
/// scheme, each coefficient being lifted to a fraction as its turn comes.
pub open spec fn horner_fraction<T: Fractional>(s: Seq<T>, x: Fraction<T>) -> Fraction<T>
    decreases s.len(),
{
    if s.len() == 0 {
        T::zero_fraction_spec()
    } else if s.len() == 1 {
        s[0].lift_spec()
    } else {
        T::plus(T::times(horner_fraction(s.skip(1), x), x), s[0])
    }
}

/// Whether Horner's scheme on `s` at `x` can be computed: where it
/// multiplies at all, `x` is in lowest terms and every multiplication and
/// addition can be computed. A sequence of at most one coefficient asks
/// nothing of `x`.
pub open spec fn horner_fraction_defined<T: Fractional>(s: Seq<T>, x: Fraction<T>) -> bool
    decreases s.len(),
{
    s.len() <= 1 || {
        &&& T::in_lowest_terms(x)
        &&& horner_fraction_defined(s.skip(1), x)
        &&& T::times_defined(horner_fraction(s.skip(1), x), x)
        &&& T::plus_defined(T::times(horner_fraction(s.skip(1), x), x), s[0])
    }
}

/// Horner's scheme at a fraction is defined on every suffix of a sequence it
/// is defined on.
pub proof fn lemma_horner_fraction_defined_suffix<T: Fractional>(s: Seq<T>, x: Fraction<T>, k: int)
    requires
        horner_fraction_defined(s, x),
        0 <= k <= s.len(),
    ensures
        horner_fraction_defined(s.skip(k), x),
    decreases k,
{
    if k == 0 {
        assert(s.skip(0) == s);
    } else {
        lemma_horner_fraction_defined_suffix(s, x, k - 1);
        assert(s.skip(k - 1).skip(1) == s.skip(k));
    }
}

impl<T: Fractional> PolynomialEval<Fraction<T>> for Polynomial<T> {
    open spec fn eval_defined(self, x: Fraction<T>) -> bool {
        horner_fraction_defined(self@, x)
    }

    open spec fn eval_spec(self, x: Fraction<T>) -> Fraction<T> {
        horner_fraction(self@, x)
    }

    fn eval(self, x: &Fraction<T>) -> (value: Fraction<T>) {
        let ghost s = self@;
        let mut coefficients = self.into_coefficients();
        match coefficients.pop() {
            Some(last) => {
                let mut retval = last.lift();
                assert(s.skip(s.len() - 1) == seq![last]);
                while coefficients.len() > 0
                    invariant
                        coefficients@.len() < s.len(),
                        coefficients@ == s.take(coefficients@.len() as int),
                        horner_fraction_defined(s, *x),
                        T::in_lowest_terms(retval),
                        retval == horner_fraction(s.skip(coefficients@.len() as int), *x),
                    decreases coefficients@.len(),
                {
                    let ghost n = coefficients@.len() as int;
                    let coefficient = coefficients.pop().unwrap();
                    proof {
                        lemma_horner_fraction_defined_suffix(s, *x, n - 1);
                        assert(s.skip(n - 1).skip(1) == s.skip(n));
                        assert(coefficients@ == s.take(n - 1));
                    }
                    T::mul_assign_fraction(&mut retval, x);
                    T::add_assign_integer(&mut retval, coefficient);
                }
                assert(s.skip(0) == s);
                retval
            },
            None => T::zero_fraction(),
        }
    }
}

impl<'a, T: Fractional> PolynomialEval<Fraction<T>> for &'a Polynomial<T> {
    open spec fn eval_defined(self, x: Fraction<T>) -> bool {
        horner_fraction_defined(self@, x)
    }

    open spec fn eval_spec(self, x: Fraction<T>) -> Fraction<T> {
        horner_fraction(self@, x)
    }

    fn eval(self, x: &Fraction<T>) -> (value: Fraction<T>) {
        let coefficients = self.coefficients();
        let mut i: usize = coefficients.len();
        if i == 0 {
            return T::zero_fraction();
        }
        i = i - 1;
        let mut retval = T::lift_ref(&coefficients[i]);
        assert(self@.skip(i as int) == seq![self@[i as int]]);
        while i > 0
            invariant
                i < self@.len(),
                coefficients@ == self@,
                horner_fraction_defined(self@, *x),
                T::in_lowest_terms(retval),
                retval == horner_fraction(self@.skip(i as int), *x),
            decreases i,
        {
            proof {
                lemma_horner_fraction_defined_suffix(self@, *x, i - 1);
                assert(self@.skip(i - 1).skip(1) == self@.skip(i as int));
            }
            i = i - 1;
            T::mul_assign_fraction(&mut retval, x);
            T::add_assign_integer_ref(&mut retval, &coefficients[i]);
        }
        assert(self@.skip(0) == self@);
        retval
    }
}

} // verus!
