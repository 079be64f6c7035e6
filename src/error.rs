use vstd::prelude::*;

verus! {

/// The ways an algebra operation can refuse its operands.
#[derive(Debug, Clone, Copy, PartialEq, Eq, Structural)]
pub enum AlgebraError {
    /// Two operands of an operation on equal shapes differ in length or shape.
    DimensionMismatch,
    /// A matrix's rows are not all of one length where that is required.
    MalformedMatrix,
    /// A product whose left column count differs from its right row count.
    IncompatibleDimensions,
    /// A matrix whose row count differs from the length of one of its rows.
    NotSquare,
    /// A matrix whose determinant is exactly zero.
    SingularMatrix,
    /// A vector operation defined for one dimension only got another one.
    ArityViolation,
}

} // verus!
