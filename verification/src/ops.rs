//! The operator identities of the expression language and their
//! dispatch onto the arithmetic layer.  The parser produces these
//! operators; the evaluator applies them to already-evaluated operands
//! through the two functions here.

use crate::error::CalcError;
use crate::functions;
use crate::functions::spec_add_value;
use crate::functions::spec_divide_value;
use crate::functions::spec_factorial_value;
use crate::functions::spec_multiply_value;
use crate::functions::spec_negate_value;
use crate::functions::spec_pow_value;
use crate::functions::spec_right_divide_value;
use crate::functions::spec_subtract_value;
use crate::functions::spec_transpose_value;
use crate::functions::view_result;
use crate::value::ValModel;
use crate::value::Value;
use vstd::prelude::*;

verus! {

/// A unary operator of the expression language.
#[derive(PartialEq, Eq, Debug, Clone)]
pub enum UnaryOp {
    Positive,
    Negate,
    Factorial,
    Transpose,
}

/// A binary operator of the expression language.
#[derive(PartialEq, Eq, Debug, Clone)]
pub enum BinaryOp {
    Add,
    Subtract,
    Multiply,
    Divide,
    RightDivide,
    Power,
}

/// What `apply_unary` returns for each operator.
pub open spec fn spec_apply_unary(op: UnaryOp, x: ValModel) -> Result<ValModel, CalcError> {
    match op {
        UnaryOp::Positive => Ok(x),
        UnaryOp::Negate => spec_negate_value(x),
        UnaryOp::Factorial => spec_factorial_value(x),
        UnaryOp::Transpose => spec_transpose_value(x),
    }
}

/// What `apply_binary` returns for each operator.
pub open spec fn spec_apply_binary(op: BinaryOp, x: ValModel, y: ValModel) -> Result<
    ValModel,
    CalcError,
> {
    match op {
        BinaryOp::Add => spec_add_value(x, y),
        BinaryOp::Subtract => spec_subtract_value(x, y),
        BinaryOp::Multiply => spec_multiply_value(x, y),
        BinaryOp::Divide => spec_divide_value(x, y),
        BinaryOp::RightDivide => spec_right_divide_value(x, y),
        BinaryOp::Power => spec_pow_value(x, y),
    }
}

/// Applies a unary operator to an evaluated operand.
pub fn apply_unary(op: &UnaryOp, x: &Value) -> (r: Result<Value, CalcError>)
    requires
        x@.wf(),
    ensures
        view_result(r) == spec_apply_unary(*op, x@),
        r matches Ok(v) ==> v@.wf(),
{
    match op {
        UnaryOp::Positive => Ok(x.duplicate()),
        UnaryOp::Negate => functions::negate(x),
        UnaryOp::Factorial => functions::factorial(x),
        UnaryOp::Transpose => functions::transpose(x),
    }
}

/// Applies a binary operator to two evaluated operands.
pub fn apply_binary(op: &BinaryOp, left: &Value, right: &Value) -> (r: Result<Value, CalcError>)
    requires
        left@.wf(),
        right@.wf(),
    ensures
        view_result(r) == spec_apply_binary(*op, left@, right@),
        r matches Ok(v) ==> v@.wf(),
{
    match op {
        BinaryOp::Add => crate::functions::add(left, right),
        BinaryOp::Subtract => functions::subtract(left, right),
        BinaryOp::Multiply => functions::multiply(left, right),
        BinaryOp::Divide => functions::divide(left, right),
        BinaryOp::RightDivide => functions::right_divide(left, right),
        BinaryOp::Power => functions::pow(left, right),
    }
}

} // verus!
