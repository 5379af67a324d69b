//! The error taxonomy of the engine.
//!
//! Every operation returns its failures as values of `CalcError`; the
//! engine never panics and never prints.  `IndeterminateSystem` carries a
//! structured parametrization of the solution set; rendering it as text
//! is left to the caller, as all formatting is.

use vstd::prelude::*;

verus! {

/// One free-variable term on the right-hand side of a solved pivot
/// variable: `coeff * x_(var+1)`, where `coeff` is the bit pattern of the
/// row coefficient already moved across the equality (sign flipped).
#[derive(Clone, Debug, PartialEq)]
pub struct FreeTerm {
    pub var: usize,
    pub coeff: u64,
}

/// One row of the parametrized solution set of an indeterminate system:
/// `x_(var+1) = constant + sum of terms`.
#[derive(Clone, Debug, PartialEq)]
pub struct PivotRelation {
    pub var: usize,
    pub constant: u64,
    pub terms: Vec<FreeTerm>,
}

/// The parametrized solution set of a compatible indeterminate system:
/// one relation per dependent (pivot) variable, and the counts of
/// dependent and free variables.
#[derive(Clone, Debug, PartialEq)]
pub struct Parametrization {
    pub relations: Vec<PivotRelation>,
    pub dependent: usize,
    pub free: usize,
}

/// Which of the linear-system input checks failed, in the order they are
/// made.
#[derive(Clone, Copy, Debug, PartialEq, Eq, Structural)]
pub enum InvalidSystemKind {
    /// The coefficient operand is not a matrix value.
    CoefficientsNotMatrix,
    /// The right-hand-side operand is not a matrix value.
    RhsNotMatrix,
    /// The coefficient matrix has no columns.
    EmptyCoefficients,
    /// The coefficient matrix and the right-hand side disagree on rows.
    RowCountMismatch,
    /// The right-hand side is not a single column.
    RhsNotColumn,
}

/// Every failure an engine operation can report.
#[derive(Clone, Debug, PartialEq)]
pub enum CalcError {
    /// The operands' dimensions do not fit the operation.
    DimensionMismatch,
    /// The operation is only defined for square matrices.
    NonSquare,
    /// The matrix has a tolerance-zero determinant.
    Singular,
    /// Division by a tolerance-zero scalar.
    DivisionByZero,
    /// The exponent is not an integral scalar.
    InvalidExponent,
    /// The factorial of a negative number was asked for.
    NegativeFactorial,
    /// The square root of a negative number was asked for.
    NegativeSqrt,
    /// A scalar-only function was applied to a matrix.
    NotDefinedForMatrices,
    /// A matrix-only function was applied to a scalar.
    NotDefinedForScalars,
    /// A malformed linear system was handed to the solver.
    InvalidSystem(InvalidSystemKind),
    /// The linear system has no solution.
    IncompatibleSystem,
    /// The linear system has infinitely many solutions; the payload
    /// parametrizes them.
    IndeterminateSystem(Parametrization),
    /// An element access lay outside the matrix.
    IndexOutOfRange,
}

} // verus!
