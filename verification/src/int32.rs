//! The coefficient capabilities of `i32`.

use vstd::prelude::*;
use crate::algebra::{
    AdditiveIdentity, ExactClone, IntegerGcd, IntegerRing, Render, Ring, ScalarMul,
    ScalarMulLaws, GCD,
};
use crate::fraction::{Fraction, Fractional};
use crate::numbers::{
    decimal, gcd_of, is_reduced, lemma_gcd_with_one, lemma_reduced_is_reduced,
    lemma_reduced_plus_integer, magnitude, reduced,
};

verus! {

/// `num_traits::zero` at `i32`: the additive identity, the integer 0.
#[verifier::external_body]
fn zero_i32() -> (z: i32)
    ensures
        z == 0,
{
    num_traits::zero()
}

/// `num_traits::Zero::is_zero` at `i32`: whether the value equals 0.
#[verifier::external_body]
fn is_zero_i32(x: &i32) -> (b: bool)
    ensures
        b == (*x == 0),
{
    num_traits::Zero::is_zero(x)
}

/// `num_integer::Integer::gcd` at `i32`: the greatest common divisor of the
/// two absolute values, which is never negative. Where that divisor does not
/// fit the type the outside function overflows, so such operands are left
/// out.
#[verifier::external_body]
fn gcd_i32(a: &i32, b: &i32) -> (divisor: i32)
    requires
        gcd_of(magnitude(*a as int), magnitude(*b as int)) <= i32::MAX,
    ensures
        divisor == gcd_of(magnitude(*a as int), magnitude(*b as int)),
{
    num_integer::Integer::gcd(a, b)
}

/// `Display` for `i32`, through `format!`: the decimal digits, after a minus
/// sign for a negative value.
#[verifier::external_body]
fn display_i32(x: &i32) -> (text: String)
    ensures
        text@ == decimal(*x as int),
{
    format!("{}", x)
}

/// `MulAssign<&Ratio<i32>>` for `Ratio<i32>` of `num_rational`: for two
/// fractions in lowest terms, the product in lowest terms. The outside
/// function cancels common factors before it multiplies, so that it
/// overflows only where the result does not fit; those operands are left
/// out.
#[verifier::external_body]
fn ratio_mul_assign_i32(q: &mut Fraction<i32>, x: &Fraction<i32>)
    requires
        is_reduced(old(q).numer as int, old(q).denom as int),
        is_reduced(x.numer as int, x.denom as int),
        i32::MIN <= reduced(old(q).numer * x.numer, old(q).denom * x.denom).0 <= i32::MAX,
        reduced(old(q).numer * x.numer, old(q).denom * x.denom).1 <= i32::MAX,
    ensures
        (final(q).numer as int, final(q).denom as int) == reduced(
            old(q).numer * x.numer,
            old(q).denom * x.denom,
        ),
{
    let mut ratio = num_rational::Ratio::new_raw(q.numer, q.denom);
    ratio *= &num_rational::Ratio::new_raw(x.numer, x.denom);
    let (numer, denom) = ratio.into_raw();
    q.numer = numer;
    q.denom = denom;
}

/// `AddAssign<i32>` for `Ratio<i32>` of `num_rational`: for a fraction
/// `n / d` in lowest terms, the fraction `(n + d * c) / d`, which needs no
/// reduction. The outside function computes `d * c` and then the numerator,
/// so operands on which either overflows are left out.
#[verifier::external_body]
fn ratio_add_assign_i32(q: &mut Fraction<i32>, c: i32)
    requires
        is_reduced(old(q).numer as int, old(q).denom as int),
        i32::MIN <= old(q).denom * c <= i32::MAX,
        i32::MIN <= old(q).numer + old(q).denom * c <= i32::MAX,
    ensures
        final(q).numer == old(q).numer + old(q).denom * c,
        final(q).denom == old(q).denom,
{
    let mut ratio = num_rational::Ratio::new_raw(q.numer, q.denom);
    ratio += c;
    let (numer, denom) = ratio.into_raw();
    q.numer = numer;
    q.denom = denom;
}

/// `AddAssign<&i32>` for `Ratio<i32>` of `num_rational`: as the addition of
/// an owned integer.
#[verifier::external_body]
fn ratio_add_assign_ref_i32(q: &mut Fraction<i32>, c: &i32)
    requires
        is_reduced(old(q).numer as int, old(q).denom as int),
        i32::MIN <= old(q).denom * *c <= i32::MAX,
        i32::MIN <= old(q).numer + old(q).denom * *c <= i32::MAX,
    ensures
        final(q).numer == old(q).numer + old(q).denom * *c,
        final(q).denom == old(q).denom,
{
    let mut ratio = num_rational::Ratio::new_raw(q.numer, q.denom);
    ratio += c;
    let (numer, denom) = ratio.into_raw();
    q.numer = numer;
    q.denom = denom;
}

impl AdditiveIdentity for i32 {
    open spec fn zero_spec() -> i32 {
        0
    }

    open spec fn is_zero_spec(self) -> bool {
        self == 0
    }

    fn zero() -> (z: i32) {
        zero_i32()
    }

    fn is_zero(&self) -> (b: bool) {
        is_zero_i32(self)
    }

    proof fn lemma_zero_is_zero() {
    }
}

impl ExactClone for i32 {
    proof fn lemma_clone_exact(a: i32, b: i32) {
    }
}

impl Ring for i32 {
    open spec fn add_defined(self, rhs: i32) -> bool {
        i32::MIN <= self + rhs <= i32::MAX
    }

    open spec fn add_spec(self, rhs: i32) -> i32 {
        (self + rhs) as i32
    }

    open spec fn mul_defined(self, rhs: i32) -> bool {
        i32::MIN <= self * rhs <= i32::MAX
    }

    open spec fn mul_spec(self, rhs: i32) -> i32 {
        (self * rhs) as i32
    }

    fn add_assign(&mut self, rhs: i32) {
        *self = *self + rhs;
    }

    fn add_assign_ref(&mut self, rhs: &i32) {
        *self = *self + *rhs;
    }

    fn add_ref(&self, rhs: &i32) -> (sum: i32) {
        *self + *rhs
    }

    fn mul_assign_ref(&mut self, rhs: &i32) {
        *self = *self * *rhs;
    }

    proof fn lemma_add_zero(x: i32, z: i32) {
    }
}

impl IntegerRing for i32 {
    open spec fn as_int(self) -> int {
        self as int
    }

    proof fn lemma_zero_as_int() {
    }

    proof fn lemma_add_as_int(x: i32, y: i32) {
    }

    proof fn lemma_mul_as_int(x: i32, y: i32) {
    }
}

impl GCD for i32 {
    type Output = i32;

    open spec fn gcd_defined(&self, rhs: &i32) -> bool {
        gcd_of(magnitude(*self as int), magnitude(*rhs as int)) <= i32::MAX
    }

    open spec fn gcd_spec(&self, rhs: &i32) -> i32 {
        gcd_of(magnitude(*self as int), magnitude(*rhs as int)) as i32
    }

    fn gcd(&self, rhs: &i32) -> (divisor: i32) {
        gcd_i32(self, rhs)
    }
}

impl IntegerGcd for i32 {
    proof fn lemma_gcd_as_int(x: i32, y: i32) {
    }
}

impl Render for i32 {
    open spec fn render_spec(&self) -> Seq<char> {
        decimal(*self as int)
    }

    fn render(&self) -> (text: String) {
        display_i32(self)
    }
}

impl Fractional for i32 {
    open spec fn in_lowest_terms(q: Fraction<i32>) -> bool {
        is_reduced(q.numer as int, q.denom as int)
    }

    open spec fn lift_spec(self) -> Fraction<i32> {
        Fraction { numer: self, denom: 1 }
    }

    open spec fn zero_fraction_spec() -> Fraction<i32> {
        Fraction { numer: 0, denom: 1 }
    }

    open spec fn times_defined(q: Fraction<i32>, x: Fraction<i32>) -> bool {
        &&& i32::MIN <= reduced(q.numer * x.numer, q.denom * x.denom).0 <= i32::MAX
        &&& reduced(q.numer * x.numer, q.denom * x.denom).1 <= i32::MAX
    }

    open spec fn times(q: Fraction<i32>, x: Fraction<i32>) -> Fraction<i32> {
        Fraction {
            numer: reduced(q.numer * x.numer, q.denom * x.denom).0 as i32,
            denom: reduced(q.numer * x.numer, q.denom * x.denom).1 as i32,
        }
    }

    open spec fn plus_defined(q: Fraction<i32>, c: i32) -> bool {
        &&& i32::MIN <= q.denom * c <= i32::MAX
        &&& i32::MIN <= q.numer + q.denom * c <= i32::MAX
    }

    open spec fn plus(q: Fraction<i32>, c: i32) -> Fraction<i32> {
        Fraction { numer: (q.numer + q.denom * c) as i32, denom: q.denom }
    }

    fn lift(self) -> (q: Fraction<i32>) {
        proof {
            lemma_gcd_with_one(magnitude(self as int));
        }
        Fraction { numer: self, denom: 1 }
    }

    fn lift_ref(&self) -> (q: Fraction<i32>) {
        proof {
            lemma_gcd_with_one(magnitude(*self as int));
        }
        Fraction { numer: *self, denom: 1 }
    }

    fn zero_fraction() -> (q: Fraction<i32>) {
        proof {
            lemma_gcd_with_one(0);
        }
        Fraction { numer: 0, denom: 1 }
    }

    fn mul_assign_fraction(q: &mut Fraction<i32>, x: &Fraction<i32>) {
        proof {
            assert(q.denom * x.denom > 0) by (nonlinear_arith)
                requires
                    q.denom > 0,
                    x.denom > 0,
            ;
            lemma_reduced_is_reduced(q.numer * x.numer, q.denom * x.denom);
        }
        ratio_mul_assign_i32(q, x);
    }

    fn add_assign_integer(q: &mut Fraction<i32>, c: i32) {
        proof {
            lemma_reduced_plus_integer(q.numer as int, q.denom as int, c as int);
        }
        ratio_add_assign_i32(q, c);
    }

    fn add_assign_integer_ref(q: &mut Fraction<i32>, c: &i32) {
        proof {
            lemma_reduced_plus_integer(q.numer as int, q.denom as int, *c as int);
        }
        ratio_add_assign_ref_i32(q, c);
    }
}

impl ScalarMul for i32 {
    open spec fn scale_defined(self, k: nat) -> bool {
        i32::MIN <= self * k <= i32::MAX
    }

    open spec fn scale_spec(self, k: nat) -> i32 {
        (self * k) as i32
    }

    fn scale(self, k: usize) -> (product: i32) {
        if self == 0 {
            assert(self * k == 0) by (nonlinear_arith)
                requires
                    self == 0,
            ;
            0
        } else if k as u64 <= i32::MAX as u64 {
            self * (k as i32)
        } else {
            assert(self == -1 && k + i32::MIN == 0) by (nonlinear_arith)
                requires
                    self != 0,
                    k > i32::MAX,
                    i32::MIN <= self * k <= i32::MAX,
                    i32::MIN + i32::MAX == -1,
            ;
            i32::MIN
        }
    }

    fn scale_ref(&self, k: usize) -> (product: i32) {
        (*self).scale(k)
    }
}

impl ScalarMulLaws for i32 {
    proof fn lemma_scale_zero(z: i32, k: nat) {
        assert(z * k == 0) by (nonlinear_arith)
            requires
                z == 0,
        ;
    }

    proof fn lemma_scale_sum(x: i32, y: i32, k: nat) {
        assert((x + y) * k == x * k + y * k) by (nonlinear_arith);
    }
}

} // verus!
