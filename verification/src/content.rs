//! The content of a polynomial, and the divisor of two polynomials.

use vstd::prelude::*;
use vstd::pervasive::unreached;
use crate::algebra::{AdditiveIdentity, ExactClone, GCD};
use crate::polynomial::Polynomial;

verus! {

/// The content of a coefficient sequence: zero for the empty sequence, the
/// first coefficient for a sequence of one, and otherwise the divisor of the
/// content of all but the last coefficient and the last one.
pub open spec fn content_of<T: GCD<Output = T> + AdditiveIdentity>(s: Seq<T>) -> T
    decreases s.len(),
{
    if s.len() == 0 {
        T::zero_spec()
    } else if s.len() == 1 {
        s[0]
    } else {
        content_of(s.drop_last()).gcd_spec(&s.last())
    }
}

/// Whether each divisor that the content asks for can be computed.
pub open spec fn content_defined<T: GCD<Output = T> + AdditiveIdentity>(s: Seq<T>) -> bool
    decreases s.len(),
{
    s.len() <= 1 || (content_defined(s.drop_last()) && content_of(s.drop_last()).gcd_defined(&s.last()))
}

impl<T> Polynomial<T> {
    /// The greatest common divisor of all coefficients.
    pub fn content(&self) -> (divisor: T) where T: GCD<Output = T> + AdditiveIdentity + ExactClone
        requires
            content_defined(self@),
        ensures
            divisor == content_of(self@),
    {
        let coefficients = self.coefficients();
        if coefficients.len() == 0 {
            return T::zero();
        }
        let mut divisor = coefficients[0].clone();
        proof {
            T::lemma_clone_exact(coefficients@[0], divisor);
            assert(self@.take(1) == seq![divisor]);
        }
        let mut i: usize = 1;
        while i < coefficients.len()
            invariant
                coefficients@ == self@,
                1 <= i <= self@.len(),
                content_defined(self@),
                content_defined(self@.take(i as int)),
                divisor == content_of(self@.take(i as int)),
            decreases self@.len() - i,
        {
            proof {
                lemma_content_defined_prefix(self@, i + 1);
                assert(self@.take(i + 1).drop_last() == self@.take(i as int));
            }
            divisor = divisor.gcd(&coefficients[i]);
            i = i + 1;
        }
        assert(self@.take(i as int) == self@);
        divisor
    }
}

/// The content is defined on every prefix of a sequence it is defined on.
pub proof fn lemma_content_defined_prefix<T: GCD<Output = T> + AdditiveIdentity>(s: Seq<T>, k: int)
    requires
        content_defined(s),
        0 <= k <= s.len(),
    ensures
        content_defined(s.take(k)),
    decreases s.len(),
{
    if k == s.len() {
        assert(s.take(k) == s);
    } else {
        lemma_content_defined_prefix(s.drop_last(), k);
        assert(s.drop_last().take(k) == s.take(k));
    }
}

impl<T: GCD> GCD for Polynomial<T> {
    type Output = Polynomial<T>;

    /// The divisor of two polynomials is not available.
    open spec fn gcd_defined(&self, rhs: &Polynomial<T>) -> bool {
        false
    }

    open spec fn gcd_spec(&self, rhs: &Polynomial<T>) -> Polynomial<T> {
        arbitrary()
    }

    /// Not available: no caller can meet its precondition, and a call from
    /// unverified code panics.
    fn gcd(&self, rhs: &Polynomial<T>) -> (divisor: Polynomial<T>) {
        unreached()
    }
}

} // verus!
