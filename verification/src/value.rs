//! The tagged value type of the calculator: a real number or a matrix.

use crate::matrix::MatModel;
use crate::matrix::Matrix;
use vstd::prelude::*;

verus! {

/// The mathematical model of a value: the bit pattern of a double, or a
/// matrix model.
#[verifier::ext_equal]
pub enum ValModel {
    Scalar(u64),
    Matrix(MatModel),
}

impl ValModel {
    /// A scalar model is always well formed; a matrix model is well
    /// formed when its storage matches its dimensions.
    pub open spec fn wf(self) -> bool {
        match self {
            ValModel::Scalar(_) => true,
            ValModel::Matrix(m) => m.wf(),
        }
    }
}

/// A value handled by the calculator: either a real number (held as the
/// bit pattern of an IEEE double) or a matrix.
#[derive(Clone, Debug)]
pub enum Value {
    Scalar(u64),
    Matrix(Matrix),
}

impl View for Value {
    type V = ValModel;

    open spec fn view(&self) -> ValModel {
        match self {
            Value::Scalar(s) => ValModel::Scalar(*s),
            Value::Matrix(m) => ValModel::Matrix(m@),
        }
    }
}

impl Value {
    /// An independent copy of the value.
    pub fn duplicate(&self) -> (r: Value)
        requires
            self@.wf(),
        ensures
            r@ == self@,
            r@.wf(),
    {
        match self {
            Value::Scalar(s) => Value::Scalar(*s),
            Value::Matrix(m) => Value::Matrix(m.duplicate()),
        }
    }
}

} // verus!
