//! Laws that relate the operations to one another.

use vstd::prelude::*;
use crate::add::{pairwise_sum, sum, sum_defined};
use crate::algebra::{
    AdditiveIdentity, IntegerGcd, IntegerRing, Ring, ScalarMul, ScalarMulLaws, GCD,
};
use crate::combine::{both_have, longer};
use crate::content::{content_defined, content_of};
use crate::derivative::{derivative_of, differentiable, scaled};
use crate::eval::{horner, horner_defined};
use crate::numbers::{
    divides, lemma_divides_magnitude, lemma_divides_transitive, lemma_gcd_divides,
    lemma_gcd_greatest, lemma_power_sum_shift, magnitude, power_sum,
};
use crate::polynomial::{is_canonical, lemma_trim_canonical, trim};

verus! {

/// A sequence and a longer one that continues it with zeros only have the
/// same trimmed form.
pub proof fn lemma_trim_zero_extension<T: AdditiveIdentity>(u: Seq<T>, v: Seq<T>)
    requires
        u.len() <= v.len(),
        v.take(u.len() as int) == u,
        forall|i: int| u.len() <= i < v.len() ==> (#[trigger] v[i]).is_zero_spec(),
    ensures
        trim(u) == trim(v),
    decreases v.len(),
{
    if u.len() == v.len() {
        assert(v.take(v.len() as int) == v);
    } else {
        assert(v.last().is_zero_spec());
        assert(v.drop_last().take(u.len() as int) == v.take(u.len() as int));
        lemma_trim_zero_extension(u, v.drop_last());
    }
}

/// Adding the zero polynomial on either side gives back a polynomial in
/// canonical form as it is, and no coefficient sum is needed for it.
pub proof fn lemma_sum_with_zero_polynomial<T: Ring>(p: Seq<T>)
    requires
        is_canonical(p),
    ensures
        sum_defined(p, Seq::<T>::empty()),
        sum_defined(Seq::<T>::empty(), p),
        sum(p, Seq::<T>::empty()) == p,
        sum(Seq::<T>::empty(), p) == p,
{
    assert(pairwise_sum(p, Seq::<T>::empty()) == p);
    assert(pairwise_sum(Seq::<T>::empty(), p) == p);
}

/// The derivative of a polynomial without a coefficient above the constant
/// one is the zero polynomial.
pub proof fn lemma_derivative_of_constant<T: ScalarMul<O>, O: AdditiveIdentity>(s: Seq<T>)
    requires
        s.len() <= 1,
    ensures
        differentiable::<T, O>(s),
        derivative_of::<T, O>(s) == Seq::<O>::empty(),
{
    assert(scaled::<T, O>(s) == Seq::<O>::empty());
}

/// Trailing zeros make no difference to a derivative.
pub proof fn lemma_derivative_of_trimmed<T: ScalarMulLaws<O>, O: Ring>(s: Seq<T>)
    requires
        differentiable::<T, O>(trim(s)),
    ensures
        differentiable::<T, O>(s),
        derivative_of::<T, O>(trim(s)) == derivative_of::<T, O>(s),
{
    lemma_trim_canonical(s);
    let t = trim(s);
    assert forall|p: int| 1 <= p < s.len() implies (#[trigger] s[p]).scale_defined(p as nat) by {
        if p < t.len() {
            assert(t[p] == s[p]);
        } else {
            T::lemma_scale_zero(s[p], p as nat);
        }
    }
    let u = scaled::<T, O>(t);
    let v = scaled::<T, O>(s);
    assert(v.take(u.len() as int) == u) by {
        assert forall|i: int| 0 <= i < u.len() implies v[i] == u[i] by {
            assert(t[i + 1] == s[i + 1]);
        }
    }
    assert forall|i: int| u.len() <= i < v.len() implies (#[trigger] v[i]).is_zero_spec() by {
        T::lemma_scale_zero(s[i + 1], (i + 1) as nat);
    }
    lemma_trim_zero_extension(u, v);
}

/// Trailing zeros of the operands make no difference to a sum.
pub proof fn lemma_sum_of_trimmed<T: Ring>(a: Seq<T>, b: Seq<T>)
    requires
        sum_defined(trim(a), trim(b)),
    ensures
        sum_defined(a, b),
        sum(trim(a), trim(b)) == sum(a, b),
{
    lemma_trim_canonical(a);
    lemma_trim_canonical(b);
    let ta = trim(a);
    let tb = trim(b);
    assert forall|i: int| #[trigger] both_have(i, a.len(), b.len()) implies a[i].add_defined(b[i]) by {
        if i < ta.len() && i < tb.len() {
            assert(both_have(i, ta.len(), tb.len()));
            assert(ta[i] == a[i] && tb[i] == b[i]);
        } else if i < tb.len() {
            T::lemma_add_zero(b[i], a[i]);
        } else {
            T::lemma_add_zero(a[i], b[i]);
        }
    }
    let u = pairwise_sum(ta, tb);
    let v = pairwise_sum(a, b);
    assert(v.take(u.len() as int) == u) by {
        assert forall|i: int| 0 <= i < u.len() implies v[i] == u[i] by {
            if i < ta.len() {
                assert(ta[i] == a[i]);
            }
            if i < tb.len() {
                assert(tb[i] == b[i]);
            }
            if i < ta.len() && i >= tb.len() && i < b.len() {
                T::lemma_add_zero(a[i], b[i]);
            }
            if i < tb.len() && i >= ta.len() && i < a.len() {
                T::lemma_add_zero(b[i], a[i]);
            }
        }
    }
    assert forall|i: int| u.len() <= i < v.len() implies (#[trigger] v[i]).is_zero_spec() by {
        if i < a.len() && i < b.len() {
            T::lemma_add_zero(a[i], b[i]);
        }
    }
    lemma_trim_zero_extension(u, v);
}

/// The derivative of a sum is the sum of the derivatives, wherever each
/// operation involved can be computed.
pub proof fn lemma_derivative_of_sum<T: ScalarMulLaws<O>, O: Ring>(p: Seq<T>, q: Seq<T>)
    requires
        sum_defined(p, q),
        differentiable::<T, O>(p),
        differentiable::<T, O>(q),
        differentiable::<T, O>(sum(p, q)),
        sum_defined(derivative_of::<T, O>(p), derivative_of::<T, O>(q)),
    ensures
        derivative_of::<T, O>(sum(p, q)) == sum(derivative_of::<T, O>(p), derivative_of::<T, O>(q)),
{
    let s = pairwise_sum(p, q);
    let dp = scaled::<T, O>(p);
    let dq = scaled::<T, O>(q);
    lemma_derivative_of_trimmed::<T, O>(s);
    lemma_sum_of_trimmed(dp, dq);
    assert forall|i: int| 0 <= i < scaled::<T, O>(s).len() implies scaled::<T, O>(s)[i] == pairwise_sum(
        dp,
        dq,
    )[i] by {
        if i + 1 < p.len() && i + 1 < q.len() {
            assert(both_have(i + 1, p.len(), q.len()));
            assert(both_have(i, dp.len(), dq.len()));
            assert(s[i + 1] == p[i + 1].add_spec(q[i + 1]));
            T::lemma_scale_sum(p[i + 1], q[i + 1], (i + 1) as nat);
        }
    }
    assert(scaled::<T, O>(s) == pairwise_sum(dp, dq));
}

/// The integers that the coefficients of `s` stand for.
pub open spec fn integers_of<T: IntegerRing>(s: Seq<T>) -> Seq<int> {
    Seq::new(s.len(), |i: int| s[i].as_int())
}

/// Over a ring of integers, the value that Horner's scheme gives, where it
/// can be computed, is the sum of the terms `s[i] * x^i`.
pub proof fn lemma_horner_is_power_sum<T: IntegerRing>(s: Seq<T>, x: T)
    requires
        horner_defined(s, x),
    ensures
        horner(s, x).as_int() == power_sum(integers_of(s), x.as_int()),
    decreases s.len(),
{
    if s.len() == 0 {
        T::lemma_zero_as_int();
    } else {
        lemma_power_sum_shift(integers_of(s), x.as_int());
        assert(integers_of(s).skip(1) == integers_of(s.skip(1)));
        if s.len() == 1 {
            assert(integers_of(s.skip(1)).len() == 0);
            assert(power_sum(integers_of(s.skip(1)), x.as_int()) == 0);
            assert(x.as_int() * 0 == 0);
        } else {
            lemma_horner_is_power_sum(s.skip(1), x);
            let rest = horner(s.skip(1), x);
            T::lemma_mul_as_int(rest, x);
            T::lemma_add_as_int(rest.mul_spec(x), s[0]);
            assert(rest.as_int() * x.as_int() == x.as_int() * rest.as_int()) by (nonlinear_arith);
        }
    }
}

/// The content of the zero polynomial is zero, and the content of a
/// polynomial with one coefficient is that coefficient.
pub proof fn lemma_content_of_short<T: GCD<Output = T> + AdditiveIdentity>(s: Seq<T>)
    requires
        s.len() <= 1,
    ensures
        s.len() == 0 ==> content_of(s) == T::zero_spec(),
        s.len() == 1 ==> content_of(s) == s[0],
{
}

/// Over integers, the content divides every coefficient.
pub proof fn lemma_content_divides<T: IntegerGcd>(s: Seq<T>, i: int)
    requires
        content_defined(s),
        0 <= i < s.len(),
    ensures
        divides(content_of(s).as_int(), s[i].as_int()),
    decreases s.len(),
{
    if s.len() == 1 {
        assert(s[0].as_int() == s[0].as_int() * 1);
    } else {
        let rest = content_of(s.drop_last());
        let last = s.last();
        let g = rest.gcd_spec(&last).as_int();
        T::lemma_gcd_as_int(rest, last);
        lemma_gcd_divides(magnitude(rest.as_int()), magnitude(last.as_int()));
        lemma_divides_magnitude(g, rest.as_int());
        lemma_divides_magnitude(g, last.as_int());
        if i < s.len() - 1 {
            lemma_content_divides(s.drop_last(), i);
            lemma_divides_transitive(g, rest.as_int(), s[i].as_int());
        }
    }
}

/// Over integers, whatever divides every coefficient divides the content,
/// which is therefore the greatest common divisor of the coefficients.
pub proof fn lemma_content_greatest<T: IntegerGcd>(s: Seq<T>, e: int)
    requires
        content_defined(s),
        s.len() > 0,
        forall|i: int| 0 <= i < s.len() ==> divides(e, (#[trigger] s[i]).as_int()),
    ensures
        divides(e, content_of(s).as_int()),
    decreases s.len(),
{
    if s.len() == 1 {
        assert(divides(e, s[0].as_int()));
    } else {
        let rest = content_of(s.drop_last());
        let last = s.last();
        assert forall|i: int| 0 <= i < s.drop_last().len() implies divides(
            e,
            (#[trigger] s.drop_last()[i]).as_int(),
        ) by {
            assert(s.drop_last()[i] == s[i]);
        }
        lemma_content_greatest(s.drop_last(), e);
        assert(divides(e, last.as_int()));
        T::lemma_gcd_as_int(rest, last);
        lemma_divides_magnitude(e, rest.as_int());
        lemma_divides_magnitude(e, last.as_int());
        lemma_gcd_greatest(magnitude(rest.as_int()), magnitude(last.as_int()), e);
    }
}

} // verus!
