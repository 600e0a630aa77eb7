//! The capabilities a coefficient type supplies.
//!
//! Each capability is a trait that pairs executable operations with the
//! mathematical functions they compute, so that the polynomial algorithms can
//! be stated and proved once for every coefficient type.

use vstd::prelude::*;
use crate::numbers::{gcd_of, magnitude};

verus! {

/// An additive identity together with a test for it.
pub trait AdditiveIdentity: Sized {
    /// The additive identity of the type.
    spec fn zero_spec() -> Self;

    /// Whether a value counts as zero.
    spec fn is_zero_spec(self) -> bool;

    /// Returns the additive identity.
    fn zero() -> (z: Self)
        ensures
            z == Self::zero_spec(),
    ;

    /// Tests a value for zero.
    fn is_zero(&self) -> (b: bool)
        ensures
            b == self.is_zero_spec(),
    ;

    /// The additive identity passes the zero test.
    proof fn lemma_zero_is_zero()
        ensures
            Self::zero_spec().is_zero_spec(),
    ;
}

/// Cloning that returns an equal value.
pub trait ExactClone: Sized + Clone {
    /// A clone is equal to the value it was made from.
    proof fn lemma_clone_exact(a: Self, b: Self)
        requires
            cloned(a, b),
        ensures
            a == b,
    ;
}

/// In-place addition and multiplication.
///
/// `add_defined` and `mul_defined` say on which operands the executable
/// operations may be used; for a machine integer that is wherever the exact
/// result fits the type.
pub trait Ring: AdditiveIdentity + ExactClone {
    /// Whether the sum of two values can be computed.
    spec fn add_defined(self, rhs: Self) -> bool;

    /// The sum of two values.
    spec fn add_spec(self, rhs: Self) -> Self;

    /// Whether the product of two values can be computed.
    spec fn mul_defined(self, rhs: Self) -> bool;

    /// The product of two values.
    spec fn mul_spec(self, rhs: Self) -> Self;

    /// Adds an owned value to `self`.
    fn add_assign(&mut self, rhs: Self)
        requires
            old(self).add_defined(rhs),
        ensures
            *final(self) == old(self).add_spec(rhs),
    ;

    /// Adds a borrowed value to `self`.
    fn add_assign_ref(&mut self, rhs: &Self)
        requires
            old(self).add_defined(*rhs),
        ensures
            *final(self) == old(self).add_spec(*rhs),
    ;

    /// The sum of two borrowed values.
    fn add_ref(&self, rhs: &Self) -> (sum: Self)
        requires
            self.add_defined(*rhs),
        ensures
            sum == self.add_spec(*rhs),
    ;

    /// Multiplies `self` by a borrowed value.
    fn mul_assign_ref(&mut self, rhs: &Self)
        requires
            old(self).mul_defined(*rhs),
        ensures
            *final(self) == old(self).mul_spec(*rhs),
    ;

    /// Adding a zero on either side changes nothing.
    proof fn lemma_add_zero(x: Self, z: Self)
        requires
            z.is_zero_spec(),
        ensures
            x.add_defined(z),
            x.add_spec(z) == x,
            z.add_defined(x),
            z.add_spec(x) == x,
    ;
}

/// A ring whose values stand for integers and whose sums and products,
/// where they can be computed, are those of the integers.
pub trait IntegerRing: Ring {
    /// The integer that a value stands for.
    spec fn as_int(self) -> int;

    /// The additive identity stands for 0.
    proof fn lemma_zero_as_int()
        ensures
            Self::zero_spec().as_int() == 0,
    ;

    /// A sum stands for the sum of the integers.
    proof fn lemma_add_as_int(x: Self, y: Self)
        requires
            x.add_defined(y),
        ensures
            x.add_spec(y).as_int() == x.as_int() + y.as_int(),
    ;

    /// A product stands for the product of the integers.
    proof fn lemma_mul_as_int(x: Self, y: Self)
        requires
            x.mul_defined(y),
        ensures
            x.mul_spec(y).as_int() == x.as_int() * y.as_int(),
    ;
}

/// Multiplication by an unsigned integer scalar, which may lead to another
/// type.
pub trait ScalarMul<Output = Self>: Sized {
    /// Whether the product with the scalar `k` can be computed.
    spec fn scale_defined(self, k: nat) -> bool;

    /// The product with the scalar `k`.
    spec fn scale_spec(self, k: nat) -> Output;

    /// Multiplies an owned value by `k`.
    fn scale(self, k: usize) -> (product: Output)
        requires
            self.scale_defined(k as nat),
        ensures
            product == self.scale_spec(k as nat),
    ;

    /// Multiplies a borrowed value by `k`.
    fn scale_ref(&self, k: usize) -> (product: Output)
        requires
            self.scale_defined(k as nat),
        ensures
            product == self.scale_spec(k as nat),
    ;
}

/// The laws that tie scalar multiplication to addition and to zero.
pub trait ScalarMulLaws<Output: Ring = Self>: Ring + ScalarMul<Output> {
    /// A zero can be multiplied by any scalar, and the product is a zero.
    proof fn lemma_scale_zero(z: Self, k: nat)
        requires
            z.is_zero_spec(),
        ensures
            z.scale_defined(k),
            z.scale_spec(k).is_zero_spec(),
    ;

    /// Scalar multiplication distributes over a sum, wherever each operation
    /// involved can be computed.
    proof fn lemma_scale_sum(x: Self, y: Self, k: nat)
        requires
            x.add_defined(y),
            x.scale_defined(k),
            y.scale_defined(k),
            x.add_spec(y).scale_defined(k),
            x.scale_spec(k).add_defined(y.scale_spec(k)),
        ensures
            x.add_spec(y).scale_spec(k) == x.scale_spec(k).add_spec(y.scale_spec(k)),
    ;
}

/// The greatest common divisor of two values.
pub trait GCD<Rhs = Self> {
    /// The type of the divisor.
    type Output;

    /// Whether the divisor of `self` and `rhs` can be computed.
    spec fn gcd_defined(&self, rhs: &Rhs) -> bool;

    /// The greatest common divisor of `self` and `rhs`.
    spec fn gcd_spec(&self, rhs: &Rhs) -> Self::Output;

    /// Computes the greatest common divisor of `self` and `rhs`.
    fn gcd(&self, rhs: &Rhs) -> (divisor: Self::Output)
        requires
            self.gcd_defined(rhs),
        ensures
            divisor == self.gcd_spec(rhs),
    ;
}

/// A ring of integers whose divisor is the greatest common divisor of the
/// integers.
pub trait IntegerGcd: IntegerRing + GCD<Output = Self> {
    /// The divisor stands for the greatest common divisor of the two
    /// absolute values.
    proof fn lemma_gcd_as_int(x: Self, y: Self)
        requires
            x.gcd_defined(&y),
        ensures
            x.gcd_spec(&y).as_int() == gcd_of(magnitude(x.as_int()), magnitude(y.as_int())),
    ;
}

/// A textual form.
pub trait Render {
    /// The text of a value.
    spec fn render_spec(&self) -> Seq<char>;

    /// Writes a value out as text.
    fn render(&self) -> (text: String)
        ensures
            text@ == self.render_spec(),
    ;
}

} // verus!
