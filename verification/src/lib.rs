//! Single-variable polynomials over a generic coefficient type.
//!
//! A [`Polynomial`] owns its coefficients in ascending order of power and is
//! kept in canonical form: the stored sequence never ends in a coefficient
//! that tests as zero, and the zero polynomial is the empty sequence.

pub mod add;
pub mod algebra;
pub mod combine;
pub mod content;
pub mod derivative;
pub mod eval;
pub mod fraction;
pub mod int32;
pub mod int64;
pub mod laws;
pub mod numbers;
pub mod polynomial;
pub mod render;
pub mod unsigned;

pub use algebra::{
    AdditiveIdentity, ExactClone, IntegerGcd, IntegerRing, Render, Ring, ScalarMul,
    ScalarMulLaws, GCD,
};
pub use derivative::Derivative;
pub use eval::PolynomialEval;
pub use fraction::{Fraction, Fractional};
pub use polynomial::Polynomial;
