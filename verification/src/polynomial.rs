//! The polynomial container and its canonical form.

use vstd::prelude::*;
use vstd::std_specs::convert::FromSpecImpl;
use vstd::std_specs::iter::IteratorSpec;
use crate::algebra::AdditiveIdentity;

verus! {

/// Whether a coefficient sequence is in canonical form: it is empty, or its
/// last element does not test as zero.
pub open spec fn is_canonical<T: AdditiveIdentity>(s: Seq<T>) -> bool {
    s.len() > 0 ==> !s.last().is_zero_spec()
}

/// A coefficient sequence without its trailing zeros.
pub open spec fn trim<T: AdditiveIdentity>(s: Seq<T>) -> Seq<T>
    decreases s.len(),
{
    if s.len() > 0 && s.last().is_zero_spec() {
        trim(s.drop_last())
    } else {
        s
    }
}

/// Trimming leaves a canonical prefix, and what it removes tests as zero.
pub proof fn lemma_trim_canonical<T: AdditiveIdentity>(s: Seq<T>)
    ensures
        is_canonical(trim(s)),
        trim(s).len() <= s.len(),
        trim(s) == s.take(trim(s).len() as int),
        forall|i: int| trim(s).len() <= i < s.len() ==> (#[trigger] s[i]).is_zero_spec(),
    decreases s.len(),
{
    if s.len() > 0 && s.last().is_zero_spec() {
        lemma_trim_canonical(s.drop_last());
        assert(s.drop_last().take(trim(s).len() as int) == s.take(trim(s).len() as int));
        assert forall|i: int| trim(s).len() <= i < s.len() implies (#[trigger] s[i]).is_zero_spec() by {
            if i < s.len() - 1 {
                assert(s.drop_last()[i].is_zero_spec());
            }
        }
    } else {
        assert(s.take(s.len() as int) == s);
    }
}

/// A canonical sequence is its own trimmed form.
pub proof fn lemma_trim_of_canonical<T: AdditiveIdentity>(s: Seq<T>)
    requires
        is_canonical(s),
    ensures
        trim(s) == s,
{
}

/// A polynomial in one indeterminate: the coefficient of the `i`-th power is
/// stored at index `i`.
#[derive(PartialEq, Eq, Debug)]
pub struct Polynomial<T> {
    coefficients: Vec<T>,
}

impl<T> View for Polynomial<T> {
    type V = Seq<T>;

    closed spec fn view(&self) -> Seq<T> {
        self.coefficients@
    }
}

impl<T> Polynomial<T> {
    /// The stored coefficients, lowest power first.
    pub fn coefficients(&self) -> (c: &Vec<T>)
        ensures
            c@ == self@,
    {
        &self.coefficients
    }

    /// Gives up the polynomial for its coefficients.
    pub fn into_coefficients(self) -> (c: Vec<T>)
        ensures
            c@ == self@,
    {
        self.coefficients
    }

    /// An iterator over the coefficients, lowest power first.
    pub fn iter(&self) -> (iter: std::slice::Iter<'_, T>)
        ensures
            vstd::std_specs::slice::into_iter_elts(iter) == self@,
    {
        self.coefficients.iter()
    }

    /// An iterator over mutable references to the coefficients, lowest power
    /// first. It is `<[T]>::iter_mut` of the standard library: the iterator
    /// yields one reference to each coefficient, from the first to the last,
    /// and what is stored through a reference is the coefficient afterwards.
    /// The number of coefficients stays as it is; the polynomial may be out
    /// of canonical form afterwards.
    #[verifier::external_body]
    pub fn iter_mut(&mut self) -> (iter: std::slice::IterMut<'_, T>)
        ensures
            iter.remaining().len() == old(self)@.len(),
            final(self)@.len() == old(self)@.len(),
            forall|i: int|
                0 <= i < old(self)@.len() ==> *(#[trigger] iter.remaining()[i]) == old(self)@[i],
            forall|i: int|
                0 <= i < old(self)@.len() ==> *final(#[trigger] iter.remaining()[i])
                    == final(self)@[i],
    {
        self.coefficients.iter_mut()
    }

    /// The number of stored coefficients.
    pub fn len(&self) -> (n: usize)
        ensures
            n == self@.len(),
    {
        self.coefficients.len()
    }

    /// Whether this is the zero polynomial, which stores no coefficient.
    pub fn is_empty(&self) -> (b: bool)
        ensures
            b == (self@.len() == 0),
    {
        self.coefficients.is_empty()
    }
}

#[verifier::external_type_specification]
#[verifier::external_body]
#[verifier::reject_recursive_types(T)]
pub struct ExIterMut<'a, T: 'a>(std::slice::IterMut<'a, T>);

impl<T> IntoIterator for Polynomial<T> {
    type Item = T;

    type IntoIter = std::vec::IntoIter<T>;

    /// An iterator that hands the coefficients out, lowest power first.
    fn into_iter(self) -> (iter: std::vec::IntoIter<T>)
        ensures
            iter.remaining() == self@,
    {
        self.coefficients.into_iter()
    }
}

impl<'a, T> IntoIterator for &'a Polynomial<T> {
    type Item = &'a T;

    type IntoIter = std::slice::Iter<'a, T>;

    /// As [`Polynomial::iter`].
    fn into_iter(self) -> (iter: std::slice::Iter<'a, T>)
        ensures
            vstd::std_specs::slice::into_iter_elts(iter) == self@,
    {
        self.iter()
    }
}

impl<'a, T> IntoIterator for &'a mut Polynomial<T> {
    type Item = &'a mut T;

    type IntoIter = std::slice::IterMut<'a, T>;

    /// As [`Polynomial::iter_mut`]: the iterator yields one reference to
    /// each coefficient, from the first to the last, and what is stored
    /// through a reference is the coefficient afterwards.
    fn into_iter(self) -> (iter: std::slice::IterMut<'a, T>)
        ensures
            iter.remaining().len() == old(self)@.len(),
            final(self)@.len() == old(self)@.len(),
            forall|i: int|
                0 <= i < old(self)@.len() ==> *(#[trigger] iter.remaining()[i]) == old(self)@[i],
            forall|i: int|
                0 <= i < old(self)@.len() ==> *final(#[trigger] iter.remaining()[i])
                    == final(self)@[i],
    {
        self.iter_mut()
    }
}

impl<T: Clone> Clone for Polynomial<T> {
    /// A polynomial whose coefficients are clones of the coefficients of
    /// `self`.
    fn clone(&self) -> (p: Self)
        ensures
            p@.len() == self@.len(),
            forall|i: int| 0 <= i < self@.len() ==> cloned(self@[i], #[trigger] p@[i]),
    {
        Polynomial { coefficients: self.coefficients.clone() }
    }
}

impl<T> Default for Polynomial<T> {
    /// The zero polynomial.
    fn default() -> (p: Self)
        ensures
            p@ == Seq::<T>::empty(),
    {
        Polynomial { coefficients: Vec::default() }
    }
}

impl<T: AdditiveIdentity> FromSpecImpl<Vec<T>> for Polynomial<T> {
    open spec fn obeys_from_spec() -> bool {
        false
    }

    open spec fn from_spec(coefficients: Vec<T>) -> Self {
        arbitrary()
    }
}

impl<T: AdditiveIdentity> From<Vec<T>> for Polynomial<T> {
    /// Builds the polynomial with the given coefficients, lowest power first,
    /// leaving out trailing zeros.
    fn from(coefficients: Vec<T>) -> (p: Self)
        ensures
            p@ == trim(coefficients@),
            is_canonical(p@),
    {
        let mut retval = Polynomial { coefficients };
        retval.remove_extra_zeros();
        proof {
            lemma_trim_canonical(coefficients@);
        }
        retval
    }
}

impl<T> Polynomial<T> {
    /// Lends the coefficient vector out for changes in place.
    pub(crate) fn coefficients_mut(&mut self) -> (c: &mut Vec<T>)
        ensures
            c@ == old(self)@,
            final(self)@ == final(c)@,
    {
        &mut self.coefficients
    }
}

impl<T: AdditiveIdentity> Polynomial<T> {
    /// The zero polynomial.
    pub fn zero() -> (p: Self)
        ensures
            p@ == Seq::<T>::empty(),
    {
        Default::default()
    }

    /// Makes `self` the zero polynomial.
    pub fn set_zero(&mut self)
        ensures
            final(self)@ == Seq::<T>::empty(),
    {
        self.coefficients.clear()
    }

    /// Whether every stored coefficient tests as zero. For a polynomial in
    /// canonical form that is the case only where none is stored.
    pub fn is_zero(&self) -> (b: bool)
        ensures
            b == (forall|i: int| 0 <= i < self@.len() ==> (#[trigger] self@[i]).is_zero_spec()),
            is_canonical(self@) ==> b == (self@.len() == 0),
    {
        let mut i: usize = self.coefficients.len();
        while i > 0
            invariant
                i <= self@.len(),
                forall|j: int| i <= j < self@.len() ==> (#[trigger] self@[j]).is_zero_spec(),
            decreases i,
        {
            i = i - 1;
            if !self.coefficients[i].is_zero() {
                return false;
            }
        }
        true
    }

    /// Removes trailing zero coefficients.
    pub(crate) fn remove_extra_zeros(&mut self)
        ensures
            final(self)@ == trim(old(self)@),
    {
        loop
            invariant
                trim(self@) == trim(old(self)@),
            ensures
                self@ == trim(old(self)@),
            decreases self@.len(),
        {
            match self.coefficients.last() {
                Some(tail) => {
                    if tail.is_zero() {
                        self.coefficients.pop();
                    } else {
                        break;
                    }
                },
                None => {
                    break;
                },
            }
        }
    }
}

} // verus!
