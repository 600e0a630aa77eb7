//! The coefficient capabilities of `i64`.

use vstd::prelude::*;
use crate::algebra::{
    AdditiveIdentity, ExactClone, IntegerGcd, IntegerRing, Render, Ring, ScalarMul,
    ScalarMulLaws, GCD,
};
use crate::fraction::{Fraction, Fractional};
use crate::numbers::{
    decimal, gcd_of, is_reduced, lemma_gcd_with_one, lemma_reduced_is_reduced,
    lemma_reduced_plus_integer, magnitude, reduced,
};

verus! {

/// `num_traits::zero` at `i64`: the additive identity, the integer 0.
#[verifier::external_body]
fn zero_i64() -> (z: i64)
    ensures
        z == 0,
{
    num_traits::zero()
}

/// `num_traits::Zero::is_zero` at `i64`: whether the value equals 0.
#[verifier::external_body]
fn is_zero_i64(x: &i64) -> (b: bool)
    ensures
        b == (*x == 0),
{
    num_traits::Zero::is_zero(x)
}

/// `num_integer::Integer::gcd` at `i64`: the greatest common divisor of the
/// two absolute values, which is never negative. Where that divisor does not
/// fit the type the outside function overflows, so such operands are left
/// out.
#[verifier::external_body]
fn gcd_i64(a: &i64, b: &i64) -> (divisor: i64)
    requires
        gcd_of(magnitude(*a as int), magnitude(*b as int)) <= i64::MAX,
    ensures
        divisor == gcd_of(magnitude(*a as int), magnitude(*b as int)),
{
    num_integer::Integer::gcd(a, b)
}

/// `Display` for `i64`, through `format!`: the decimal digits, after a minus
/// sign for a negative value.
#[verifier::external_body]
fn display_i64(x: &i64) -> (text: String)
    ensures
        text@ == decimal(*x as int),
{
    format!("{}", x)
}

/// `MulAssign<&Ratio<i64>>` for `Ratio<i64>` of `num_rational`: for two
/// fractions in lowest terms, the product in lowest terms. The outside
/// function cancels common factors before it multiplies, so that it
/// overflows only where the result does not fit; those operands are left
/// out.
#[verifier::external_body]
fn ratio_mul_assign_i64(q: &mut Fraction<i64>, x: &Fraction<i64>)
    requires
        is_reduced(old(q).numer as int, old(q).denom as int),
        is_reduced(x.numer as int, x.denom as int),
        i64::MIN <= reduced(old(q).numer * x.numer, old(q).denom * x.denom).0 <= i64::MAX,
        reduced(old(q).numer * x.numer, old(q).denom * x.denom).1 <= i64::MAX,
    ensures
        (final(q).numer as int, final(q).denom as int) == reduced(
            old(q).numer * x.numer,
            old(q).denom * x.denom,
        ),
{
    let mut ratio = num_rational::Ratio::new_raw(q.numer, q.denom);
    ratio *= &num_rational::Ratio::new_raw(x.numer, x.denom);
    let (numer, denom) = ratio.into_raw();
    q.numer = numer;
    q.denom = denom;
}

/// `AddAssign<i64>` for `Ratio<i64>` of `num_rational`: for a fraction
/// `n / d` in lowest terms, the fraction `(n + d * c) / d`, which needs no
/// reduction. The outside function computes `d * c` and then the numerator,
/// so operands on which either overflows are left out.
#[verifier::external_body]
fn ratio_add_assign_i64(q: &mut Fraction<i64>, c: i64)
    requires
        is_reduced(old(q).numer as int, old(q).denom as int),
        i64::MIN <= old(q).denom * c <= i64::MAX,
        i64::MIN <= old(q).numer + old(q).denom * c <= i64::MAX,
    ensures
        final(q).numer == old(q).numer + old(q).denom * c,
        final(q).denom == old(q).denom,
{
    let mut ratio = num_rational::Ratio::new_raw(q.numer, q.denom);
    ratio += c;
    let (numer, denom) = ratio.into_raw();
    q.numer = numer;
    q.denom = denom;
}

/// `AddAssign<&i64>` for `Ratio<i64>` of `num_rational`: as the addition of
/// an owned integer.
#[verifier::external_body]
fn ratio_add_assign_ref_i64(q: &mut Fraction<i64>, c: &i64)
    requires
        is_reduced(old(q).numer as int, old(q).denom as int),
        i64::MIN <= old(q).denom * *c <= i64::MAX,
        i64::MIN <= old(q).numer + old(q).denom * *c <= i64::MAX,
    ensures
        final(q).numer == old(q).numer + old(q).denom * *c,
        final(q).denom == old(q).denom,
{
    let mut ratio = num_rational::Ratio::new_raw(q.numer, q.denom);
    ratio += c;
    let (numer, denom) = ratio.into_raw();
    q.numer = numer;
    q.denom = denom;
}

impl AdditiveIdentity for i64 {
    open spec fn zero_spec() -> i64 {
        0
    }

    open spec fn is_zero_spec(self) -> bool {
        self == 0
    }

    fn zero() -> (z: i64) {
        zero_i64()
    }

    fn is_zero(&self) -> (b: bool) {
        is_zero_i64(self)
    }

    proof fn lemma_zero_is_zero() {
    }
}

impl ExactClone for i64 {
    proof fn lemma_clone_exact(a: i64, b: i64) {
    }
}

impl Ring for i64 {
    open spec fn add_defined(self, rhs: i64) -> bool {
        i64::MIN <= self + rhs <= i64::MAX
    }

    open spec fn add_spec(self, rhs: i64) -> i64 {
        (self + rhs) as i64
    }

    open spec fn mul_defined(self, rhs: i64) -> bool {
        i64::MIN <= self * rhs <= i64::MAX
    }

    open spec fn mul_spec(self, rhs: i64) -> i64 {
        (self * rhs) as i64
    }

    fn add_assign(&mut self, rhs: i64) {
        *self = *self + rhs;
    }

    fn add_assign_ref(&mut self, rhs: &i64) {
        *self = *self + *rhs;
    }

    fn add_ref(&self, rhs: &i64) -> (sum: i64) {
        *self + *rhs
    }

    fn mul_assign_ref(&mut self, rhs: &i64) {
        *self = *self * *rhs;
    }

    proof fn lemma_add_zero(x: i64, z: i64) {
    }
}

impl IntegerRing for i64 {
    open spec fn as_int(self) -> int {
        self as int
    }

    proof fn lemma_zero_as_int() {
    }

    proof fn lemma_add_as_int(x: i64, y: i64) {
    }

    proof fn lemma_mul_as_int(x: i64, y: i64) {
    }
}

impl GCD for i64 {
    type Output = i64;

    open spec fn gcd_defined(&self, rhs: &i64) -> bool {
        gcd_of(magnitude(*self as int), magnitude(*rhs as int)) <= i64::MAX
    }

    open spec fn gcd_spec(&self, rhs: &i64) -> i64 {
        gcd_of(magnitude(*self as int), magnitude(*rhs as int)) as i64
    }

    fn gcd(&self, rhs: &i64) -> (divisor: i64) {
        gcd_i64(self, rhs)
    }
}

impl IntegerGcd for i64 {
    proof fn lemma_gcd_as_int(x: i64, y: i64) {
    }
}

impl Render for i64 {
    open spec fn render_spec(&self) -> Seq<char> {
        decimal(*self as int)
    }

    fn render(&self) -> (text: String) {
        display_i64(self)
    }
}

impl Fractional for i64 {
    open spec fn in_lowest_terms(q: Fraction<i64>) -> bool {
        is_reduced(q.numer as int, q.denom as int)
    }

    open spec fn lift_spec(self) -> Fraction<i64> {
        Fraction { numer: self, denom: 1 }
    }

    open spec fn zero_fraction_spec() -> Fraction<i64> {
        Fraction { numer: 0, denom: 1 }
    }

    open spec fn times_defined(q: Fraction<i64>, x: Fraction<i64>) -> bool {
        &&& i64::MIN <= reduced(q.numer * x.numer, q.denom * x.denom).0 <= i64::MAX
        &&& reduced(q.numer * x.numer, q.denom * x.denom).1 <= i64::MAX
    }

    open spec fn times(q: Fraction<i64>, x: Fraction<i64>) -> Fraction<i64> {
        Fraction {
            numer: reduced(q.numer * x.numer, q.denom * x.denom).0 as i64,
            denom: reduced(q.numer * x.numer, q.denom * x.denom).1 as i64,
        }
    }

    open spec fn plus_defined(q: Fraction<i64>, c: i64) -> bool {
        &&& i64::MIN <= q.denom * c <= i64::MAX
        &&& i64::MIN <= q.numer + q.denom * c <= i64::MAX
    }

    open spec fn plus(q: Fraction<i64>, c: i64) -> Fraction<i64> {
        Fraction { numer: (q.numer + q.denom * c) as i64, denom: q.denom }
    }

    fn lift(self) -> (q: Fraction<i64>) {
        proof {
            lemma_gcd_with_one(magnitude(self as int));
        }
        Fraction { numer: self, denom: 1 }
    }

    fn lift_ref(&self) -> (q: Fraction<i64>) {
        proof {
            lemma_gcd_with_one(magnitude(*self as int));
        }
        Fraction { numer: *self, denom: 1 }
    }

    fn zero_fraction() -> (q: Fraction<i64>) {
        proof {
            lemma_gcd_with_one(0);
        }
        Fraction { numer: 0, denom: 1 }
    }

    fn mul_assign_fraction(q: &mut Fraction<i64>, x: &Fraction<i64>) {
        proof {
            assert(q.denom * x.denom > 0) by (nonlinear_arith)
                requires
                    q.denom > 0,
                    x.denom > 0,
            ;
            lemma_reduced_is_reduced(q.numer * x.numer, q.denom * x.denom);
        }
        ratio_mul_assign_i64(q, x);
    }

    fn add_assign_integer(q: &mut Fraction<i64>, c: i64) {
        proof {
            lemma_reduced_plus_integer(q.numer as int, q.denom as int, c as int);
        }
        ratio_add_assign_i64(q, c);
    }

    fn add_assign_integer_ref(q: &mut Fraction<i64>, c: &i64) {
        proof {
            lemma_reduced_plus_integer(q.numer as int, q.denom as int, *c as int);
        }
        ratio_add_assign_ref_i64(q, c);
    }
}

impl ScalarMul for i64 {
    open spec fn scale_defined(self, k: nat) -> bool {
        i64::MIN <= self * k <= i64::MAX
    }

    open spec fn scale_spec(self, k: nat) -> i64 {
        (self * k) as i64
    }

    fn scale(self, k: usize) -> (product: i64) {
        if self == 0 {
            assert(self * k == 0) by (nonlinear_arith)
                requires
                    self == 0,
            ;
            0
        } else if k as u64 <= i64::MAX as u64 {
            self * (k as i64)
        } else {
            assert(self == -1 && k + i64::MIN == 0) by (nonlinear_arith)
                requires
                    self != 0,
                    k > i64::MAX,
                    i64::MIN <= self * k <= i64::MAX,
                    i64::MIN + i64::MAX == -1,
            ;
            i64::MIN
        }
    }

    fn scale_ref(&self, k: usize) -> (product: i64) {
        (*self).scale(k)
    }
}

impl ScalarMulLaws for i64 {
    proof fn lemma_scale_zero(z: i64, k: nat) {
        assert(z * k == 0) by (nonlinear_arith)
            requires
                z == 0,
        ;
    }

    proof fn lemma_scale_sum(x: i64, y: i64, k: nat) {
        assert((x + y) * k == x * k + y * k) by (nonlinear_arith);
    }
}

} // verus!
