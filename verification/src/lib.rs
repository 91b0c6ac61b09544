pub mod commitment;
pub mod group;
pub mod polynomial;
pub mod scalar;
pub mod setup;

use vstd::prelude::*;

verus! {

/// A failure surfaced by the library's constructors and evaluators.
#[derive(Debug, PartialEq, Eq, Structural, Clone, Copy)]
pub enum Error {
    /// A supplied or converted scalar fails canonical field-membership validation.
    InvalidFieldElement,
    /// The evaluator was invoked on a polynomial with zero coefficients.
    EmptyPolynomial,
}

} // verus!
