//! Formal differentiation.

use vstd::prelude::*;
use crate::algebra::{AdditiveIdentity, ScalarMul};
use crate::polynomial::{is_canonical, trim, Polynomial};

verus! {

/// The coefficients of the derivative before trimming: the coefficient of
/// the power `p >= 1` times `p`, moved to the index `p - 1`.
pub open spec fn scaled<T: ScalarMul<O>, O>(s: Seq<T>) -> Seq<O> {
    Seq::new(
        if s.len() == 0 {
            0
        } else {
            (s.len() - 1) as nat
        },
        |i: int| s[i + 1].scale_spec((i + 1) as nat),
    )
}

/// Whether each coefficient can be multiplied by its power.
pub open spec fn differentiable<T: ScalarMul<O>, O>(s: Seq<T>) -> bool {
    forall|p: int| 1 <= p < s.len() ==> (#[trigger] s[p]).scale_defined(p as nat)
}

/// The coefficients of the derivative of the polynomial with coefficients
/// `s`.
pub open spec fn derivative_of<T: ScalarMul<O>, O: AdditiveIdentity>(s: Seq<T>) -> Seq<O> {
    trim(scaled(s))
}

/// Formal differentiation into a value of type `Output`.
pub trait Derivative<Output = Self>: Sized {
    /// Whether the derivative can be computed.
    spec fn derivative_defined(self) -> bool;

    /// Whether `out` is the derivative of `self`.
    spec fn is_derivative(self, out: Output) -> bool;

    /// Computes the derivative.
    fn derivative(self) -> (out: Output)
        requires
            self.derivative_defined(),
        ensures
            self.is_derivative(out),
    ;
}

impl<T: ScalarMul<O>, O: AdditiveIdentity> Derivative<Polynomial<O>> for Polynomial<T> {
    open spec fn derivative_defined(self) -> bool {
        differentiable::<T, O>(self@)
    }

    open spec fn is_derivative(self, out: Polynomial<O>) -> bool {
        out@ == derivative_of::<T, O>(self@) && is_canonical(out@)
    }

    fn derivative(self) -> (out: Polynomial<O>) {
        let ghost s = self@;
        let coefficients = self.into_coefficients();
        let len = coefficients.len();
        let mut products: Vec<O> = Vec::new();
        let mut power: usize = 0;
        for coefficient in it: coefficients.into_iter()
            invariant
                it.seq() == s,
                s.len() == len,
                power == it.index(),
                differentiable::<T, O>(s),
                products@.len() == (if power == 0 { 0int } else { power - 1 }),
                forall|i: int| 0 <= i < products@.len() ==> products@[i] == scaled::<T, O>(s)[i],
        {
            if power > 0 {
                products.push(coefficient.scale(power));
            }
            power = power + 1;
        }
        assert(products@ == scaled::<T, O>(s));
        Polynomial::from(products)
    }
}

impl<'a, T: ScalarMul<O>, O: AdditiveIdentity> Derivative<Polynomial<O>> for &'a Polynomial<T> {
    open spec fn derivative_defined(self) -> bool {
        differentiable::<T, O>(self@)
    }

    open spec fn is_derivative(self, out: Polynomial<O>) -> bool {
        out@ == derivative_of::<T, O>(self@) && is_canonical(out@)
    }

    fn derivative(self) -> (out: Polynomial<O>) {
        let coefficients = self.coefficients();
        let mut products: Vec<O> = Vec::new();
        let mut power: usize = 1;
        while power < coefficients.len()
            invariant
                coefficients@ == self@,
                1 <= power,
                power <= coefficients@.len() || power == 1,
                differentiable::<T, O>(self@),
                products@.len() == power - 1,
                forall|i: int| 0 <= i < products@.len() ==> products@[i] == scaled::<T, O>(self@)[i],
            decreases coefficients@.len() - power,
        {
            products.push(coefficients[power].scale_ref(power));
            power = power + 1;
        }
        assert(products@ == scaled::<T, O>(self@));
        Polynomial::from(products)
    }
}

impl<'a, T, O> Derivative<Polynomial<O>> for &'a mut Polynomial<T> where
    &'a Polynomial<T>: Derivative<Polynomial<O>>,
 {
    open spec fn derivative_defined(self) -> bool {
        (&*self).derivative_defined()
    }

    open spec fn is_derivative(self, out: Polynomial<O>) -> bool {
        (&*self).is_derivative(out)
    }

    fn derivative(self) -> (out: Polynomial<O>) {
        (&*self).derivative()
    }
}

} // verus!
