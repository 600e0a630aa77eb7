//! Evaluation by Horner's scheme.

use vstd::prelude::*;
use crate::algebra::{AdditiveIdentity, Ring};
use crate::polynomial::Polynomial;

verus! {

/// The value of the coefficient sequence `s` at `x` by Horner's scheme: the
/// highest coefficient seeds the result, and each lower coefficient is added
/// after a multiplication by `x`. The empty sequence has the value zero.
pub open spec fn horner<T: Ring>(s: Seq<T>, x: T) -> T
    decreases s.len(),
{
    if s.len() == 0 {
        T::zero_spec()
    } else if s.len() == 1 {
        s[0]
    } else {
        horner(s.skip(1), x).mul_spec(x).add_spec(s[0])
    }
}

/// Whether every multiplication and addition of Horner's scheme on `s` at `x`
/// can be computed.
pub open spec fn horner_defined<T: Ring>(s: Seq<T>, x: T) -> bool
    decreases s.len(),
{
    s.len() <= 1 || {
        &&& horner_defined(s.skip(1), x)
        &&& horner(s.skip(1), x).mul_defined(x)
        &&& horner(s.skip(1), x).mul_spec(x).add_defined(s[0])
    }
}

/// Evaluation of a polynomial at a point of type `T`.
pub trait PolynomialEval<T>: Sized {
    /// Whether the value at `x` can be computed.
    spec fn eval_defined(self, x: T) -> bool;

    /// The value at `x`.
    spec fn eval_spec(self, x: T) -> T;

    /// Computes the value at `x`.
    fn eval(self, x: &T) -> (value: T)
        requires
            self.eval_defined(*x),
        ensures
            value == self.eval_spec(*x),
    ;
}

impl<T: Ring> PolynomialEval<T> for Polynomial<T> {
    open spec fn eval_defined(self, x: T) -> bool {
        horner_defined(self@, x)
    }

    open spec fn eval_spec(self, x: T) -> T {
        horner(self@, x)
    }

    fn eval(self, x: &T) -> (value: T) {
        let ghost s = self@;
        let mut coefficients = self.into_coefficients();
        match coefficients.pop() {
            Some(last) => {
                let mut retval = last;
                assert(s.skip(s.len() - 1) == seq![last]);
                while coefficients.len() > 0
                    invariant
                        coefficients@.len() < s.len(),
                        coefficients@ == s.take(coefficients@.len() as int),
                        horner_defined(s, *x),
                        horner_defined(s.skip(coefficients@.len() as int), *x),
                        retval == horner(s.skip(coefficients@.len() as int), *x),
                    decreases coefficients@.len(),
                {
                    let ghost n = coefficients@.len() as int;
                    let coefficient = coefficients.pop().unwrap();
                    proof {
                        lemma_horner_defined_suffix(s, *x, n - 1);
                        assert(s.skip(n - 1).skip(1) == s.skip(n));
                        assert(coefficients@ == s.take(n - 1));
                    }
                    retval.mul_assign_ref(x);
                    retval.add_assign(coefficient);
                }
                assert(s.skip(0) == s);
                retval
            },
            None => T::zero(),
        }
    }
}

impl<'a, T: Ring> PolynomialEval<T> for &'a Polynomial<T> {
    open spec fn eval_defined(self, x: T) -> bool {
        horner_defined(self@, x)
    }

    open spec fn eval_spec(self, x: T) -> T {
        horner(self@, x)
    }

    fn eval(self, x: &T) -> (value: T) {
        let coefficients = self.coefficients();
        let mut i: usize = coefficients.len();
        if i == 0 {
            return T::zero();
        }
        i = i - 1;
        let mut retval = coefficients[i].clone();
        proof {
            T::lemma_clone_exact(coefficients@[i as int], retval);
            assert(self@.skip(i as int) == seq![retval]);
        }
        while i > 0
            invariant
                i < self@.len(),
                coefficients@ == self@,
                horner_defined(self@, *x),
                retval == horner(self@.skip(i as int), *x),
            decreases i,
        {
            proof {
                lemma_horner_defined_suffix(self@, *x, i - 1);
                assert(self@.skip(i - 1).skip(1) == self@.skip(i as int));
            }
            i = i - 1;
            retval.mul_assign_ref(x);
            retval.add_assign_ref(&coefficients[i]);
        }
        assert(self@.skip(0) == self@);
        retval
    }
}

impl<'a, T, U> PolynomialEval<U> for &'a mut Polynomial<T> where &'a Polynomial<T>: PolynomialEval<U> {
    open spec fn eval_defined(self, x: U) -> bool {
        (&*self).eval_defined(x)
    }

    open spec fn eval_spec(self, x: U) -> U {
        (&*self).eval_spec(x)
    }

    fn eval(self, x: &U) -> (value: U) {
        PolynomialEval::eval(&*self, x)
    }
}

/// Horner's scheme is defined on every suffix of a sequence it is defined on.
pub proof fn lemma_horner_defined_suffix<T: Ring>(s: Seq<T>, x: T, k: int)
    requires
        horner_defined(s, x),
        0 <= k <= s.len(),
    ensures
        horner_defined(s.skip(k), x),
    decreases k,
{
    if k == 0 {
        assert(s.skip(0) == s);
    } else {
        lemma_horner_defined_suffix(s, x, k - 1);
        assert(s.skip(k - 1).skip(1) == s.skip(k));
    }
}

} // verus!
