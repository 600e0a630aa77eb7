//! The coefficient capabilities of `usize`, the type of the powers.

use vstd::prelude::*;
use crate::algebra::{
    AdditiveIdentity, ExactClone, IntegerGcd, IntegerRing, Render, Ring, ScalarMul,
    ScalarMulLaws, GCD,
};
use crate::fraction::{Fraction, Fractional};
use crate::numbers::{
    decimal_nat, gcd_of, is_reduced, lemma_gcd_at_most, lemma_gcd_with_one,
    lemma_reduced_is_reduced, lemma_reduced_plus_integer, reduced,
};

verus! {

/// `num_traits::zero` at `usize`: the additive identity, the integer 0.
#[verifier::external_body]
fn zero_usize() -> (z: usize)
    ensures
        z == 0,
{
    num_traits::zero()
}

/// `num_traits::Zero::is_zero` at `usize`: whether the value equals 0.
#[verifier::external_body]
fn is_zero_usize(x: &usize) -> (b: bool)
    ensures
        b == (*x == 0),
{
    num_traits::Zero::is_zero(x)
}

/// `num_integer::Integer::gcd` at `usize`: the greatest common divisor of the
/// two numbers.
#[verifier::external_body]
fn gcd_usize(a: &usize, b: &usize) -> (divisor: usize)
    ensures
        divisor == gcd_of(*a as nat, *b as nat),
{
    num_integer::Integer::gcd(a, b)
}

/// `Display` for `usize`, through `format!`: the decimal digits.
#[verifier::external_body]
pub(crate) fn display_usize(x: &usize) -> (text: String)
    ensures
        text@ == decimal_nat(*x as nat),
{
    format!("{}", x)
}

/// `MulAssign<&Ratio<usize>>` for `Ratio<usize>` of `num_rational`: for two
/// fractions in lowest terms, the product in lowest terms. The outside
/// function cancels common factors before it multiplies, so that it
/// overflows only where the result does not fit; those operands are left
/// out.
#[verifier::external_body]
fn ratio_mul_assign_usize(q: &mut Fraction<usize>, x: &Fraction<usize>)
    requires
        is_reduced(old(q).numer as int, old(q).denom as int),
        is_reduced(x.numer as int, x.denom as int),
        reduced(old(q).numer * x.numer, old(q).denom * x.denom).0 <= usize::MAX,
        reduced(old(q).numer * x.numer, old(q).denom * x.denom).1 <= usize::MAX,
    ensures
        (final(q).numer as int, final(q).denom as int) == reduced(
            old(q).numer * x.numer,
            old(q).denom * x.denom,
        ),
{
    let mut ratio = num_rational::Ratio::new_raw(q.numer, q.denom);
    ratio *= &num_rational::Ratio::new_raw(x.numer, x.denom);
    let (numer, denom) = ratio.into_raw();
    q.numer = numer;
    q.denom = denom;
}

/// `AddAssign<usize>` for `Ratio<usize>` of `num_rational`: for a fraction
/// `n / d` in lowest terms, the fraction `(n + d * c) / d`, which needs no
/// reduction. The outside function computes `d * c` and then the numerator,
/// so operands on which either overflows are left out.
#[verifier::external_body]
fn ratio_add_assign_usize(q: &mut Fraction<usize>, c: usize)
    requires
        is_reduced(old(q).numer as int, old(q).denom as int),
        old(q).denom * c <= usize::MAX,
        old(q).numer + old(q).denom * c <= usize::MAX,
    ensures
        final(q).numer == old(q).numer + old(q).denom * c,
        final(q).denom == old(q).denom,
{
    let mut ratio = num_rational::Ratio::new_raw(q.numer, q.denom);
    ratio += c;
    let (numer, denom) = ratio.into_raw();
    q.numer = numer;
    q.denom = denom;
}

/// `AddAssign<&usize>` for `Ratio<usize>` of `num_rational`: as the addition of
/// an owned integer.
#[verifier::external_body]
fn ratio_add_assign_ref_usize(q: &mut Fraction<usize>, c: &usize)
    requires
        is_reduced(old(q).numer as int, old(q).denom as int),
        old(q).denom * *c <= usize::MAX,
        old(q).numer + old(q).denom * *c <= usize::MAX,
    ensures
        final(q).numer == old(q).numer + old(q).denom * *c,
        final(q).denom == old(q).denom,
{
    let mut ratio = num_rational::Ratio::new_raw(q.numer, q.denom);
    ratio += c;
    let (numer, denom) = ratio.into_raw();
    q.numer = numer;
    q.denom = denom;
}

impl AdditiveIdentity for usize {
    open spec fn zero_spec() -> usize {
        0
    }

    open spec fn is_zero_spec(self) -> bool {
        self == 0
    }

    fn zero() -> (z: usize) {
        zero_usize()
    }

    fn is_zero(&self) -> (b: bool) {
        is_zero_usize(self)
    }

    proof fn lemma_zero_is_zero() {
    }
}

impl ExactClone for usize {
    proof fn lemma_clone_exact(a: usize, b: usize) {
    }
}

impl Ring for usize {
    open spec fn add_defined(self, rhs: usize) -> bool {
        self + rhs <= usize::MAX
    }

    open spec fn add_spec(self, rhs: usize) -> usize {
        (self + rhs) as usize
    }

    open spec fn mul_defined(self, rhs: usize) -> bool {
        self * rhs <= usize::MAX
    }

    open spec fn mul_spec(self, rhs: usize) -> usize {
        (self * rhs) as usize
    }

    fn add_assign(&mut self, rhs: usize) {
        *self = *self + rhs;
    }

    fn add_assign_ref(&mut self, rhs: &usize) {
        *self = *self + *rhs;
    }

    fn add_ref(&self, rhs: &usize) -> (sum: usize) {
        *self + *rhs
    }

    fn mul_assign_ref(&mut self, rhs: &usize) {
        *self = *self * *rhs;
    }

    proof fn lemma_add_zero(x: usize, z: usize) {
    }
}

impl IntegerRing for usize {
    open spec fn as_int(self) -> int {
        self as int
    }

    proof fn lemma_zero_as_int() {
    }

    proof fn lemma_add_as_int(x: usize, y: usize) {
    }

    proof fn lemma_mul_as_int(x: usize, y: usize) {
    }
}

impl GCD for usize {
    type Output = usize;

    open spec fn gcd_defined(&self, rhs: &usize) -> bool {
        true
    }

    open spec fn gcd_spec(&self, rhs: &usize) -> usize {
        gcd_of(*self as nat, *rhs as nat) as usize
    }

    fn gcd(&self, rhs: &usize) -> (divisor: usize) {
        gcd_usize(self, rhs)
    }
}

impl IntegerGcd for usize {
    proof fn lemma_gcd_as_int(x: usize, y: usize) {
        lemma_gcd_at_most(x as nat, y as nat);
    }
}

impl Render for usize {
    open spec fn render_spec(&self) -> Seq<char> {
        decimal_nat(*self as nat)
    }

    fn render(&self) -> (text: String) {
        display_usize(self)
    }
}

impl Fractional for usize {
    open spec fn in_lowest_terms(q: Fraction<usize>) -> bool {
        is_reduced(q.numer as int, q.denom as int)
    }

    open spec fn lift_spec(self) -> Fraction<usize> {
        Fraction { numer: self, denom: 1 }
    }

    open spec fn zero_fraction_spec() -> Fraction<usize> {
        Fraction { numer: 0, denom: 1 }
    }

    open spec fn times_defined(q: Fraction<usize>, x: Fraction<usize>) -> bool {
        &&& reduced(q.numer * x.numer, q.denom * x.denom).0 <= usize::MAX
        &&& reduced(q.numer * x.numer, q.denom * x.denom).1 <= usize::MAX
    }

    open spec fn times(q: Fraction<usize>, x: Fraction<usize>) -> Fraction<usize> {
        Fraction {
            numer: reduced(q.numer * x.numer, q.denom * x.denom).0 as usize,
            denom: reduced(q.numer * x.numer, q.denom * x.denom).1 as usize,
        }
    }

    open spec fn plus_defined(q: Fraction<usize>, c: usize) -> bool {
        &&& q.denom * c <= usize::MAX
        &&& q.numer + q.denom * c <= usize::MAX
    }

    open spec fn plus(q: Fraction<usize>, c: usize) -> Fraction<usize> {
        Fraction { numer: (q.numer + q.denom * c) as usize, denom: q.denom }
    }

    fn lift(self) -> (q: Fraction<usize>) {
        proof {
            lemma_gcd_with_one(self as nat);
        }
        Fraction { numer: self, denom: 1 }
    }

    fn lift_ref(&self) -> (q: Fraction<usize>) {
        proof {
            lemma_gcd_with_one(*self as nat);
        }
        Fraction { numer: *self, denom: 1 }
    }

    fn zero_fraction() -> (q: Fraction<usize>) {
        proof {
            lemma_gcd_with_one(0);
        }
        Fraction { numer: 0, denom: 1 }
    }

    fn mul_assign_fraction(q: &mut Fraction<usize>, x: &Fraction<usize>) {
        proof {
            assert(q.denom * x.denom > 0) by (nonlinear_arith)
                requires
                    q.denom > 0,
                    x.denom > 0,
            ;
            lemma_reduced_is_reduced(q.numer * x.numer, q.denom * x.denom);
        }
        ratio_mul_assign_usize(q, x);
    }

    fn add_assign_integer(q: &mut Fraction<usize>, c: usize) {
        proof {
            lemma_reduced_plus_integer(q.numer as int, q.denom as int, c as int);
        }
        ratio_add_assign_usize(q, c);
    }

    fn add_assign_integer_ref(q: &mut Fraction<usize>, c: &usize) {
        proof {
            lemma_reduced_plus_integer(q.numer as int, q.denom as int, *c as int);
        }
        ratio_add_assign_ref_usize(q, c);
    }
}

impl ScalarMul for usize {
    open spec fn scale_defined(self, k: nat) -> bool {
        self * k <= usize::MAX
    }

    open spec fn scale_spec(self, k: nat) -> usize {
        (self * k) as usize
    }

    fn scale(self, k: usize) -> (product: usize) {
        self * k
    }

    fn scale_ref(&self, k: usize) -> (product: usize) {
        *self * k
    }
}

impl ScalarMulLaws for usize {
    proof fn lemma_scale_zero(z: usize, k: nat) {
        assert(z * k == 0) by (nonlinear_arith)
            requires
                z == 0,
        ;
    }

    proof fn lemma_scale_sum(x: usize, y: usize, k: nat) {
        assert((x + y) * k == x * k + y * k) by (nonlinear_arith);
    }
}

} // verus!
