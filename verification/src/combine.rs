//! Elementwise combination of two coefficient sequences of any lengths.
//!
//! Three rules decide each index of the result: one for an index that both
//! operands have, one for an index that only the left operand has, and one for
//! an index that only the right operand has.

use vstd::prelude::*;
use crate::algebra::AdditiveIdentity;
use crate::polynomial::{is_canonical, lemma_trim_canonical, trim, Polynomial};

verus! {

/// The larger of two lengths.
pub open spec fn longer(a: nat, b: nat) -> nat {
    if a >= b {
        a
    } else {
        b
    }
}

/// Whether `i` is an index of both operands, given their lengths.
pub open spec fn both_have(i: int, l_len: nat, r_len: nat) -> bool {
    0 <= i < l_len && i < r_len
}

/// Whether `i` is an index of the left operand alone.
pub open spec fn left_only(i: int, l_len: nat, r_len: nat) -> bool {
    r_len <= i < l_len
}

/// Whether `i` is an index of the right operand alone.
pub open spec fn right_only(i: int, l_len: nat, r_len: nat) -> bool {
    l_len <= i < r_len
}

/// Whether the three rules may be applied at every index of `l` and `r`.
pub open spec fn combinable<L, R, O, Op: Fn(&L, &R) -> O, OpL: Fn(&L) -> O, OpR: Fn(&R) -> O>(
    l: Seq<L>,
    r: Seq<R>,
    op: Op,
    op_l: OpL,
    op_r: OpR,
) -> bool {
    &&& forall|i: int| #[trigger] both_have(i, l.len(), r.len()) ==> call_requires(op, (&l[i], &r[i]))
    &&& forall|i: int| #[trigger] left_only(i, l.len(), r.len()) ==> call_requires(op_l, (&l[i],))
    &&& forall|i: int| #[trigger] right_only(i, l.len(), r.len()) ==> call_requires(op_r, (&r[i],))
}

/// Whether `out` is a possible elementwise combination of `l` and `r`: as
/// long as the longer of the two, with each element an outcome of the rule
/// that its index calls for.
pub open spec fn combined<L, R, O, Op: Fn(&L, &R) -> O, OpL: Fn(&L) -> O, OpR: Fn(&R) -> O>(
    l: Seq<L>,
    r: Seq<R>,
    op: Op,
    op_l: OpL,
    op_r: OpR,
    out: Seq<O>,
) -> bool {
    &&& out.len() == longer(l.len(), r.len())
    &&& forall|i: int| #[trigger] both_have(i, l.len(), r.len()) ==> call_ensures(op, (&l[i], &r[i]), out[i])
    &&& forall|i: int| #[trigger] left_only(i, l.len(), r.len()) ==> call_ensures(op_l, (&l[i],), out[i])
    &&& forall|i: int| #[trigger] right_only(i, l.len(), r.len()) ==> call_ensures(op_r, (&r[i],), out[i])
}

/// Combines two borrowed polynomials into a new one, which is then trimmed.
pub fn pairwise_op_ref_ref<L, R, O: AdditiveIdentity, Op: Fn(&L, &R) -> O, OpL: Fn(&L) -> O, OpR: Fn(&R) -> O>(
    l: &Polynomial<L>,
    r: &Polynomial<R>,
    op: Op,
    op_l: OpL,
    op_r: OpR,
) -> (out: Polynomial<O>)
    requires
        combinable(l@, r@, op, op_l, op_r),
    ensures
        is_canonical(out@),
        exists|raw: Seq<O>| #[trigger] combined(l@, r@, op, op_l, op_r, raw) && out@ == trim(raw),
{
    let l_coefficients = l.coefficients();
    let r_coefficients = r.coefficients();
    let l_len = l_coefficients.len();
    let r_len = r_coefficients.len();
    let len = if l_len >= r_len { l_len } else { r_len };
    let mut coefficients: Vec<O> = Vec::with_capacity(len);
    let mut i: usize = 0;
    while i < len
        invariant
            l_coefficients@ == l@,
            r_coefficients@ == r@,
            l_len == l@.len(),
            r_len == r@.len(),
            len == longer(l@.len(), r@.len()),
            i <= len,
            coefficients@.len() == i,
            combinable(l@, r@, op, op_l, op_r),
            forall|j: int| #[trigger] both_have(j, l@.len(), r@.len()) && j < i ==> call_ensures(op, (&l@[j], &r@[j]), coefficients@[j]),
            forall|j: int| #[trigger] left_only(j, l@.len(), r@.len()) && j < i ==> call_ensures(op_l, (&l@[j],), coefficients@[j]),
            forall|j: int| #[trigger] right_only(j, l@.len(), r@.len()) && j < i ==> call_ensures(op_r, (&r@[j],), coefficients@[j]),
        decreases len - i,
    {
        if i < l_len && i < r_len {
            assert(both_have(i as int, l@.len(), r@.len()));
            coefficients.push(op(&l_coefficients[i], &r_coefficients[i]));
        } else if i < l_len {
            assert(left_only(i as int, l@.len(), r@.len()));
            coefficients.push(op_l(&l_coefficients[i]));
        } else {
            assert(right_only(i as int, l@.len(), r@.len()));
            coefficients.push(op_r(&r_coefficients[i]));
        }
        i = i + 1;
    }
    assert(combined(l@, r@, op, op_l, op_r, coefficients@));
    Polynomial::from(coefficients)
}

/// Combines a polynomial in place with another that is used up: the left
/// operand's storage holds the result, grown where the right operand is
/// longer, and is trimmed at the end.
///
/// The untrimmed result `raw` holds, at an index of the left operand, what the
/// rule for that index left behind the mutable reference it was given, and at
/// an index of the right operand alone what the right-only rule returned.
pub fn pairwise_op_eq_move<L: AdditiveIdentity, R, Op: Fn(&mut L, R), OpL: Fn(&mut L), OpR: Fn(R) -> L>(
    l: &mut Polynomial<L>,
    r: Polynomial<R>,
    op: Op,
    op_l: OpL,
    op_r: OpR,
)
    requires
        forall|i: int, m: &mut L|
            both_have(i, old(l)@.len(), r@.len()) && *m == old(l)@[i] ==> #[trigger] call_requires(
                op,
                (m, r@[i]),
            ),
        forall|i: int, m: &mut L|
            #![trigger left_only(i, old(l)@.len(), r@.len()), call_requires(op_l, (m,))]
            left_only(i, old(l)@.len(), r@.len()) && *m == old(l)@[i] ==> call_requires(op_l, (m,)),
        forall|i: int| #[trigger] right_only(i, old(l)@.len(), r@.len()) ==> call_requires(op_r, (r@[i],)),
    ensures
        is_canonical(final(l)@),
        exists|raw: Seq<L>|
            {
                &&& raw.len() == longer(old(l)@.len(), r@.len())
                &&& forall|i: int| #[trigger]
                    both_have(i, old(l)@.len(), r@.len()) ==> exists|m: &mut L|
                        *m == old(l)@[i] && *final(m) == raw[i] && #[trigger] call_ensures(
                            op,
                            (m, r@[i]),
                            (),
                        )
                &&& forall|i: int| #[trigger]
                    left_only(i, old(l)@.len(), r@.len()) ==> exists|m: &mut L|
                        *m == old(l)@[i] && *final(m) == raw[i] && #[trigger] call_ensures(
                            op_l,
                            (m,),
                            (),
                        )
                &&& forall|i: int| #[trigger]
                    right_only(i, old(l)@.len(), r@.len()) ==> call_ensures(op_r, (r@[i],), raw[i])
                &&& final(l)@ == trim(raw)
            },
{
    let l_len = l.len();
    let ghost r_seq = r@;
    let r_coefficients = r.into_coefficients();
    let r_len = r_coefficients.len();
    let mut i: usize = 0;
    for x in it: r_coefficients.into_iter()
        invariant
            it.seq() == r_seq,
            r_len == r_seq.len(),
            i == it.index(),
            l_len == old(l)@.len(),
            l@.len() == longer(l_len as nat, i as nat),
            forall|j: int, m: &mut L|
                both_have(j, l_len as nat, r_len as nat) && *m == old(l)@[j] ==> #[trigger] call_requires(
                    op,
                    (m, r_seq[j]),
                ),
            forall|j: int| #[trigger] right_only(j, l_len as nat, r_len as nat) ==> call_requires(op_r, (r_seq[j],)),
            forall|j: int| i <= j < l_len ==> l@[j] == old(l)@[j],
            forall|j: int| #[trigger]
                both_have(j, l_len as nat, r_len as nat) && j < i ==> exists|m: &mut L|
                    *m == old(l)@[j] && *final(m) == l@[j] && #[trigger] call_ensures(op, (m, r_seq[j]), ()),
            forall|j: int| #[trigger]
                right_only(j, l_len as nat, r_len as nat) && j < i ==> call_ensures(op_r, (r_seq[j],), l@[j]),
    {
        if i < l_len {
            assert(both_have(i as int, l_len as nat, r_len as nat));
            let coefficients = l.coefficients_mut();
            op(&mut coefficients[i], x);
        } else {
            assert(right_only(i as int, l_len as nat, r_len as nat));
            let coefficients = l.coefficients_mut();
            coefficients.push(op_r(x));
        }
        i = i + 1;
    }
    while i < l_len
        invariant
            r_len == r_seq.len(),
            r_len <= i,
            l_len == old(l)@.len(),
            l@.len() == longer(l_len as nat, r_len as nat),
            forall|j: int, m: &mut L|
                #![trigger left_only(j, l_len as nat, r_len as nat), call_requires(op_l, (m,))]
                left_only(j, l_len as nat, r_len as nat) && *m == old(l)@[j] ==> call_requires(op_l, (m,)),
            forall|j: int| i <= j < l_len ==> l@[j] == old(l)@[j],
            forall|j: int| #[trigger]
                both_have(j, l_len as nat, r_len as nat) ==> exists|m: &mut L|
                    *m == old(l)@[j] && *final(m) == l@[j] && #[trigger] call_ensures(op, (m, r_seq[j]), ()),
            forall|j: int| #[trigger]
                left_only(j, l_len as nat, r_len as nat) && j < i ==> exists|m: &mut L|
                    *m == old(l)@[j] && *final(m) == l@[j] && #[trigger] call_ensures(op_l, (m,), ()),
            forall|j: int| #[trigger]
                right_only(j, l_len as nat, r_len as nat) ==> call_ensures(op_r, (r_seq[j],), l@[j]),
        decreases l_len - i,
    {
        assert(left_only(i as int, l_len as nat, r_len as nat));
        let coefficients = l.coefficients_mut();
        op_l(&mut coefficients[i]);
        i = i + 1;
    }
    proof {
        lemma_trim_canonical(l@);
    }
    l.remove_extra_zeros();
}

/// Combines a polynomial in place with a borrowed one: as
/// [`pairwise_op_eq_move`], with rules that read the right operand's
/// coefficients through references.
pub fn pairwise_op_eq_ref<L: AdditiveIdentity, R, Op: Fn(&mut L, &R), OpL: Fn(&mut L), OpR: Fn(&R) -> L>(
    l: &mut Polynomial<L>,
    r: &Polynomial<R>,
    op: Op,
    op_l: OpL,
    op_r: OpR,
)
    requires
        forall|i: int, m: &mut L|
            both_have(i, old(l)@.len(), r@.len()) && *m == old(l)@[i] ==> #[trigger] call_requires(
                op,
                (m, &r@[i]),
            ),
        forall|i: int, m: &mut L|
            #![trigger left_only(i, old(l)@.len(), r@.len()), call_requires(op_l, (m,))]
            left_only(i, old(l)@.len(), r@.len()) && *m == old(l)@[i] ==> call_requires(op_l, (m,)),
        forall|i: int| #[trigger] right_only(i, old(l)@.len(), r@.len()) ==> call_requires(op_r, (&r@[i],)),
    ensures
        is_canonical(final(l)@),
        exists|raw: Seq<L>|
            {
                &&& raw.len() == longer(old(l)@.len(), r@.len())
                &&& forall|i: int| #[trigger]
                    both_have(i, old(l)@.len(), r@.len()) ==> exists|m: &mut L|
                        *m == old(l)@[i] && *final(m) == raw[i] && #[trigger] call_ensures(
                            op,
                            (m, &r@[i]),
                            (),
                        )
                &&& forall|i: int| #[trigger]
                    left_only(i, old(l)@.len(), r@.len()) ==> exists|m: &mut L|
                        *m == old(l)@[i] && *final(m) == raw[i] && #[trigger] call_ensures(
                            op_l,
                            (m,),
                            (),
                        )
                &&& forall|i: int| #[trigger]
                    right_only(i, old(l)@.len(), r@.len()) ==> call_ensures(op_r, (&r@[i],), raw[i])
                &&& final(l)@ == trim(raw)
            },
{
    let l_len = l.len();
    let r_coefficients = r.coefficients();
    let r_len = r_coefficients.len();
    let mut i: usize = 0;
    while i < l_len
        invariant
            r_coefficients@ == r@,
            r_len == r@.len(),
            i <= l_len,
            l_len == old(l)@.len(),
            l@.len() == l_len,
            forall|j: int, m: &mut L|
                both_have(j, l_len as nat, r_len as nat) && *m == old(l)@[j] ==> #[trigger] call_requires(
                    op,
                    (m, &r@[j]),
                ),
            forall|j: int, m: &mut L|
                #![trigger left_only(j, l_len as nat, r_len as nat), call_requires(op_l, (m,))]
                left_only(j, l_len as nat, r_len as nat) && *m == old(l)@[j] ==> call_requires(op_l, (m,)),
            forall|j: int| i <= j < l_len ==> l@[j] == old(l)@[j],
            forall|j: int| #[trigger]
                both_have(j, l_len as nat, r_len as nat) && j < i ==> exists|m: &mut L|
                    *m == old(l)@[j] && *final(m) == l@[j] && #[trigger] call_ensures(op, (m, &r@[j]), ()),
            forall|j: int| #[trigger]
                left_only(j, l_len as nat, r_len as nat) && j < i ==> exists|m: &mut L|
                    *m == old(l)@[j] && *final(m) == l@[j] && #[trigger] call_ensures(op_l, (m,), ()),
        decreases l_len - i,
    {
        if i < r_len {
            assert(both_have(i as int, l_len as nat, r_len as nat));
            let coefficients = l.coefficients_mut();
            op(&mut coefficients[i], &r_coefficients[i]);
        } else {
            assert(left_only(i as int, l_len as nat, r_len as nat));
            let coefficients = l.coefficients_mut();
            op_l(&mut coefficients[i]);
        }
        i = i + 1;
    }
    while i < r_len
        invariant
            r_coefficients@ == r@,
            r_len == r@.len(),
            l_len <= i <= longer(l_len as nat, r_len as nat),
            l_len == old(l)@.len(),
            l@.len() == i,
            forall|j: int| #[trigger] right_only(j, l_len as nat, r_len as nat) ==> call_requires(op_r, (&r@[j],)),
            forall|j: int| #[trigger]
                both_have(j, l_len as nat, r_len as nat) ==> exists|m: &mut L|
                    *m == old(l)@[j] && *final(m) == l@[j] && #[trigger] call_ensures(op, (m, &r@[j]), ()),
            forall|j: int| #[trigger]
                left_only(j, l_len as nat, r_len as nat) ==> exists|m: &mut L|
                    *m == old(l)@[j] && *final(m) == l@[j] && #[trigger] call_ensures(op_l, (m,), ()),
            forall|j: int| #[trigger]
                right_only(j, l_len as nat, r_len as nat) && j < i ==> call_ensures(op_r, (&r@[j],), l@[j]),
        decreases r_len - i,
    {
        assert(right_only(i as int, l_len as nat, r_len as nat));
        let coefficients = l.coefficients_mut();
        coefficients.push(op_r(&r_coefficients[i]));
        i = i + 1;
    }
    proof {
        lemma_trim_canonical(l@);
    }
    l.remove_extra_zeros();
}

} // verus!
