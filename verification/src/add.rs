//! Addition of polynomials.

use vstd::prelude::*;
use vstd::std_specs::ops::AddSpecImpl;
use std::ops::Add;
use crate::algebra::Ring;
use crate::combine::{both_have, left_only, longer, right_only, pairwise_op_eq_move, pairwise_op_eq_ref, pairwise_op_ref_ref, combined};
use crate::polynomial::{is_canonical, trim, Polynomial};

verus! {

/// The elementwise sum of two coefficient sequences: where both have a
/// coefficient, the sum of the two; elsewhere the one that is there.
pub open spec fn pairwise_sum<T: Ring>(l: Seq<T>, r: Seq<T>) -> Seq<T> {
    Seq::new(
        longer(l.len(), r.len()),
        |i: int|
            if both_have(i, l.len(), r.len()) {
                l[i].add_spec(r[i])
            } else if i < l.len() {
                l[i]
            } else {
                r[i]
            },
    )
}

/// Whether every coefficient sum of the elementwise sum can be computed.
pub open spec fn sum_defined<T: Ring>(l: Seq<T>, r: Seq<T>) -> bool {
    forall|i: int| #[trigger] both_have(i, l.len(), r.len()) ==> l[i].add_defined(r[i])
}

/// The coefficients of the sum of two polynomials.
pub open spec fn sum<T: Ring>(l: Seq<T>, r: Seq<T>) -> Seq<T> {
    trim(pairwise_sum(l, r))
}

impl<T: Ring> Polynomial<T> {
    /// Adds a polynomial that is used up to `self`.
    pub fn add_assign(&mut self, rhs: Polynomial<T>)
        requires
            sum_defined(old(self)@, rhs@),
        ensures
            final(self)@ == sum(old(self)@, rhs@),
            is_canonical(final(self)@),
    {
        let ghost l = self@;
        let keep = |_l: &mut T|
            ensures
                *final(_l) == *old(_l),
            {
            };
        let take = |r: T| -> (out: T)
            ensures
                out == r,
            { r };
        pairwise_op_eq_move(self, rhs, T::add_assign, keep, take);
        proof {
            let raw = choose|raw: Seq<T>|
                {
                    &&& raw.len() == longer(l.len(), rhs@.len())
                    &&& forall|i: int| #[trigger]
                        both_have(i, l.len(), rhs@.len()) ==> exists|m: &mut T|
                            *m == l[i] && *final(m) == raw[i] && #[trigger] call_ensures(
                                T::add_assign,
                                (m, rhs@[i]),
                                (),
                            )
                    &&& forall|i: int| #[trigger]
                        left_only(i, l.len(), rhs@.len()) ==> exists|m: &mut T|
                            *m == l[i] && *final(m) == raw[i] && #[trigger] call_ensures(
                                keep,
                                (m,),
                                (),
                            )
                    &&& forall|i: int| #[trigger]
                        right_only(i, l.len(), rhs@.len()) ==> call_ensures(take, (rhs@[i],), raw[i])
                    &&& self@ == trim(raw)
                };
            assert forall|i: int| 0 <= i < raw.len() implies raw[i] == pairwise_sum(l, rhs@)[i] by {
                if both_have(i, l.len(), rhs@.len()) {
                } else if left_only(i, l.len(), rhs@.len()) {
                } else {
                    assert(right_only(i, l.len(), rhs@.len()));
                }
            }
            assert(raw == pairwise_sum(l, rhs@));
        }
    }

    /// Adds a borrowed polynomial to `self`.
    pub fn add_assign_ref(&mut self, rhs: &Polynomial<T>)
        requires
            sum_defined(old(self)@, rhs@),
        ensures
            final(self)@ == sum(old(self)@, rhs@),
            is_canonical(final(self)@),
    {
        let ghost l = self@;
        let keep = |_l: &mut T|
            ensures
                *final(_l) == *old(_l),
            {
            };
        let copy = |r: &T| -> (out: T)
            ensures
                out == *r,
            {
                let out = r.clone();
                proof {
                    T::lemma_clone_exact(*r, out);
                }
                out
            };
        pairwise_op_eq_ref(self, rhs, T::add_assign_ref, keep, copy);
        proof {
            let raw = choose|raw: Seq<T>|
                {
                    &&& raw.len() == longer(l.len(), rhs@.len())
                    &&& forall|i: int| #[trigger]
                        both_have(i, l.len(), rhs@.len()) ==> exists|m: &mut T|
                            *m == l[i] && *final(m) == raw[i] && #[trigger] call_ensures(
                                T::add_assign_ref,
                                (m, &rhs@[i]),
                                (),
                            )
                    &&& forall|i: int| #[trigger]
                        left_only(i, l.len(), rhs@.len()) ==> exists|m: &mut T|
                            *m == l[i] && *final(m) == raw[i] && #[trigger] call_ensures(
                                keep,
                                (m,),
                                (),
                            )
                    &&& forall|i: int| #[trigger]
                        right_only(i, l.len(), rhs@.len()) ==> call_ensures(copy, (&rhs@[i],), raw[i])
                    &&& self@ == trim(raw)
                };
            assert forall|i: int| 0 <= i < raw.len() implies raw[i] == pairwise_sum(l, rhs@)[i] by {
                if both_have(i, l.len(), rhs@.len()) {
                } else if left_only(i, l.len(), rhs@.len()) {
                } else {
                    assert(right_only(i, l.len(), rhs@.len()));
                }
            }
            assert(raw == pairwise_sum(l, rhs@));
        }
    }
}

impl<T: Ring> AddSpecImpl<Polynomial<T>> for Polynomial<T> {
    open spec fn obeys_add_spec() -> bool {
        false
    }

    open spec fn add_req(self, rhs: Polynomial<T>) -> bool {
        sum_defined(self@, rhs@)
    }

    open spec fn add_spec(self, rhs: Polynomial<T>) -> Polynomial<T> {
        arbitrary()
    }
}

impl<T: Ring> Add<Polynomial<T>> for Polynomial<T> {
    type Output = Polynomial<T>;

    /// The sum of two polynomials, both used up.
    fn add(self, rhs: Polynomial<T>) -> (out: Polynomial<T>)
        ensures
            out@ == sum(self@, rhs@),
            is_canonical(out@),
    {
        let mut out = self;
        out.add_assign(rhs);
        out
    }
}

impl<'a, T: Ring> AddSpecImpl<&'a Polynomial<T>> for Polynomial<T> {
    open spec fn obeys_add_spec() -> bool {
        false
    }

    open spec fn add_req(self, rhs: &'a Polynomial<T>) -> bool {
        sum_defined(self@, rhs@)
    }

    open spec fn add_spec(self, rhs: &'a Polynomial<T>) -> Polynomial<T> {
        arbitrary()
    }
}

impl<'a, T: Ring> Add<&'a Polynomial<T>> for Polynomial<T> {
    type Output = Polynomial<T>;

    /// The sum of a polynomial that is used up and a borrowed one.
    fn add(self, rhs: &'a Polynomial<T>) -> (out: Polynomial<T>)
        ensures
            out@ == sum(self@, rhs@),
            is_canonical(out@),
    {
        let mut out = self;
        out.add_assign_ref(rhs);
        out
    }
}

impl<'a, T: Ring> AddSpecImpl<Polynomial<T>> for &'a Polynomial<T> {
    open spec fn obeys_add_spec() -> bool {
        false
    }

    open spec fn add_req(self, rhs: Polynomial<T>) -> bool {
        sum_defined(rhs@, self@)
    }

    open spec fn add_spec(self, rhs: Polynomial<T>) -> Polynomial<T> {
        arbitrary()
    }
}

impl<'a, T: Ring> Add<Polynomial<T>> for &'a Polynomial<T> {
    type Output = Polynomial<T>;

    /// The sum of a borrowed polynomial and one that is used up, computed in
    /// the right operand's storage with the operands exchanged.
    fn add(self, rhs: Polynomial<T>) -> (out: Polynomial<T>)
        ensures
            out@ == sum(rhs@, self@),
            is_canonical(out@),
    {
        let mut out = rhs;
        out.add_assign_ref(self);
        out
    }
}

impl<'a, T: Ring> AddSpecImpl<&'a Polynomial<T>> for &'a Polynomial<T> {
    open spec fn obeys_add_spec() -> bool {
        false
    }

    open spec fn add_req(self, rhs: &'a Polynomial<T>) -> bool {
        sum_defined(self@, rhs@)
    }

    open spec fn add_spec(self, rhs: &'a Polynomial<T>) -> Polynomial<T> {
        arbitrary()
    }
}

impl<'a, T: Ring> Add<&'a Polynomial<T>> for &'a Polynomial<T> {
    type Output = Polynomial<T>;

    /// The sum of two borrowed polynomials, in a new polynomial.
    fn add(self, rhs: &'a Polynomial<T>) -> (out: Polynomial<T>)
        ensures
            out@ == sum(self@, rhs@),
            is_canonical(out@),
    {
        let copy = |c: &T| -> (out: T)
            ensures
                out == *c,
            {
                let out = c.clone();
                proof {
                    T::lemma_clone_exact(*c, out);
                }
                out
            };
        let out = pairwise_op_ref_ref(self, rhs, T::add_ref, copy, copy);
        proof {
            let raw = choose|raw: Seq<T>| #[trigger]
                combined(self@, rhs@, T::add_ref, copy, copy, raw) && out@ == trim(raw);
            assert forall|i: int| 0 <= i < raw.len() implies raw[i] == pairwise_sum(self@, rhs@)[i] by {
                if both_have(i, self@.len(), rhs@.len()) {
                } else if left_only(i, self@.len(), rhs@.len()) {
                } else {
                    assert(right_only(i, self@.len(), rhs@.len()));
                }
            }
            assert(raw == pairwise_sum(self@, rhs@));
        }
        out
    }
}

} // verus!
