//! The polymorphic arithmetic dispatch layer: every operation accepts
//! scalar and matrix values and dispatches on the variants of its
//! operands, delegating matrix work to `Matrix` and scalar work to the
//! primitive operations.

pub mod scalars;

use crate::error::CalcError;
use crate::error::FreeTerm;
use crate::error::InvalidSystemKind;
use crate::error::Parametrization;
use crate::error::PivotRelation;
use crate::fp;
use crate::solver::coeff_row_zero;
use crate::solver::first_nonzero_col;
use crate::solver::last_nonzero_scan;
use crate::solver::lemma_rref_stall;
use crate::solver::rel_model;
use crate::solver::rref_iter;
use crate::solver::rref_step;
use crate::solver::sm_solution;
use crate::solver::spec_relation;
use crate::solver::terms_upto;
use crate::solver::terms_view;
use crate::solver::RrefState;
use crate::solver::elim_col_upto;
use crate::matrix::sm_augment;
use crate::matrix::MatModel;
use crate::matrix::sm_add;
use crate::matrix::sm_mul;
use crate::matrix::sm_pow;
use crate::matrix::sm_scale;
use crate::matrix::sm_transpose;
use crate::matrix::spec_determinant;
use crate::matrix::spec_exp_integral;
use crate::matrix::spec_inverse;
use crate::matrix::spec_inverse_ok;
use crate::matrix::spec_pow_base;
use crate::matrix::spec_pow_count;
use crate::matrix::Matrix;
use crate::utils::nearly_equal;
use crate::utils::spec_nearly_equal;
use crate::value::ValModel;
use crate::value::Value;
use vstd::prelude::*;

verus! {

/// The model of an operation's outcome: the model of the value on
/// success, the error unchanged on failure.
pub open spec fn view_result(r: Result<Value, CalcError>) -> Result<ValModel, CalcError> {
    match r {
        Ok(v) => Ok(v@),
        Err(e) => Err(e),
    }
}

/// What `add` returns: the scalar sum, the elementwise matrix sum for
/// equal dimensions, and an error otherwise; the sum of a scalar and a
/// matrix is undefined.
pub open spec fn spec_add_value(x: ValModel, y: ValModel) -> Result<ValModel, CalcError> {
    match (x, y) {
        (ValModel::Scalar(a), ValModel::Scalar(b)) => Ok(ValModel::Scalar(fp::add_of(a, b))),
        (ValModel::Matrix(a), ValModel::Matrix(b)) => if a.rows == b.rows && a.cols == b.cols {
            Ok(ValModel::Matrix(sm_add(a, b)))
        } else {
            Err(CalcError::DimensionMismatch)
        },
        _ => Err(CalcError::DimensionMismatch),
    }
}

/// What `negate` returns: the scalar with its sign flipped, or the
/// matrix scaled by -1.0.
pub open spec fn spec_negate_value(x: ValModel) -> Result<ValModel, CalcError> {
    match x {
        ValModel::Scalar(a) => Ok(ValModel::Scalar(fp::neg_of(a))),
        ValModel::Matrix(m) => Ok(ValModel::Matrix(sm_scale(m, fp::NEG_ONE_BITS))),
    }
}

/// What `subtract` returns: the sum of the left operand and the negated
/// right operand.
pub open spec fn spec_subtract_value(x: ValModel, y: ValModel) -> Result<ValModel, CalcError> {
    match spec_negate_value(y) {
        Ok(ny) => spec_add_value(x, ny),
        Err(e) => Err(e),
    }
}

/// What `multiply` returns: the scalar product, the matrix product when
/// the inner dimensions agree, and the scaled matrix when one operand is
/// a scalar.
pub open spec fn spec_multiply_value(x: ValModel, y: ValModel) -> Result<ValModel, CalcError> {
    match (x, y) {
        (ValModel::Scalar(a), ValModel::Scalar(b)) => Ok(ValModel::Scalar(fp::mul_of(a, b))),
        (ValModel::Matrix(a), ValModel::Matrix(b)) => if a.cols == b.rows {
            Ok(ValModel::Matrix(sm_mul(a, b)))
        } else {
            Err(CalcError::DimensionMismatch)
        },
        (ValModel::Scalar(a), ValModel::Matrix(b)) => Ok(ValModel::Matrix(sm_scale(b, a))),
        (ValModel::Matrix(a), ValModel::Scalar(b)) => Ok(ValModel::Matrix(sm_scale(a, b))),
    }
}

/// What `inverse` returns: the reciprocal of a tolerance-nonzero scalar
/// (`DivisionByZero` otherwise), or the matrix inverse with its failure
/// cases.
pub open spec fn spec_inverse_value(x: ValModel) -> Result<ValModel, CalcError> {
    match x {
        ValModel::Scalar(a) => if spec_nearly_equal(a, fp::ZERO_BITS) {
            Err(CalcError::DivisionByZero)
        } else {
            Ok(ValModel::Scalar(fp::div_of(fp::ONE_BITS, a)))
        },
        ValModel::Matrix(m) => if m.rows != m.cols {
            Err(CalcError::NonSquare)
        } else if spec_nearly_equal(spec_determinant(m), fp::ZERO_BITS) {
            Err(CalcError::Singular)
        } else if !spec_inverse_ok(m) {
            Err(CalcError::Singular)
        } else {
            Ok(ValModel::Matrix(spec_inverse(m)))
        },
    }
}

/// What `divide` returns: the left operand multiplied by the inverse of
/// the right operand.
pub open spec fn spec_divide_value(x: ValModel, y: ValModel) -> Result<ValModel, CalcError> {
    match spec_inverse_value(y) {
        Ok(iy) => spec_multiply_value(x, iy),
        Err(e) => Err(e),
    }
}

/// What `right_divide` returns: the inverse of the left operand
/// multiplied by the right operand.
pub open spec fn spec_right_divide_value(x: ValModel, y: ValModel) -> Result<ValModel, CalcError> {
    match spec_inverse_value(x) {
        Ok(ix) => spec_multiply_value(ix, y),
        Err(e) => Err(e),
    }
}

/// What `pow` returns: a matrix exponent is rejected with
/// `InvalidExponent`; a scalar base is raised with the floating-point
/// power; a matrix base follows the matrix power with its failure cases.
pub open spec fn spec_pow_value(x: ValModel, e: ValModel) -> Result<ValModel, CalcError> {
    match e {
        ValModel::Matrix(_) => Err(CalcError::InvalidExponent),
        ValModel::Scalar(nb) => match x {
            ValModel::Scalar(a) => Ok(ValModel::Scalar(fp::powf_of(a, nb))),
            ValModel::Matrix(m) => if m.rows != m.cols {
                Err(CalcError::NonSquare)
            } else if !spec_exp_integral(nb) {
                Err(CalcError::InvalidExponent)
            } else if fp::lt_of(nb, fp::ZERO_BITS) && (spec_nearly_equal(
                spec_determinant(m),
                fp::ZERO_BITS,
            ) || !spec_inverse_ok(m)) {
                Err(CalcError::Singular)
            } else {
                Ok(ValModel::Matrix(sm_pow(spec_pow_base(m, nb), spec_pow_count(nb))))
            },
        },
    }
}

/// What `abs` returns: the scalar with its sign bit cleared; matrices
/// are rejected.
pub open spec fn spec_abs_value(x: ValModel) -> Result<ValModel, CalcError> {
    match x {
        ValModel::Scalar(a) => Ok(ValModel::Scalar(fp::abs_of(a))),
        ValModel::Matrix(_) => Err(CalcError::NotDefinedForMatrices),
    }
}

/// What `sqrt` returns: the scalar square root, `NegativeSqrt` below
/// zero; matrices are rejected.
pub open spec fn spec_sqrt_value(x: ValModel) -> Result<ValModel, CalcError> {
    match x {
        ValModel::Scalar(a) => if fp::lt_of(a, fp::ZERO_BITS) {
            Err(CalcError::NegativeSqrt)
        } else {
            Ok(ValModel::Scalar(fp::sqrt_of(a)))
        },
        ValModel::Matrix(_) => Err(CalcError::NotDefinedForMatrices),
    }
}

/// What `factorial` returns: `NegativeFactorial` below zero, and
/// otherwise the accumulated product over the truncated operand;
/// matrices are rejected.
pub open spec fn spec_factorial_value(x: ValModel) -> Result<ValModel, CalcError> {
    match x {
        ValModel::Scalar(a) => if fp::lt_of(a, fp::ZERO_BITS) {
            Err(CalcError::NegativeFactorial)
        } else {
            Ok(ValModel::Scalar(scalars::spec_factorial_bits(a)))
        },
        ValModel::Matrix(_) => Err(CalcError::NotDefinedForMatrices),
    }
}

/// What `sin` returns; matrices are rejected.
pub open spec fn spec_sin_value(x: ValModel) -> Result<ValModel, CalcError> {
    match x {
        ValModel::Scalar(a) => Ok(ValModel::Scalar(fp::sin_of(a))),
        ValModel::Matrix(_) => Err(CalcError::NotDefinedForMatrices),
    }
}

/// What `cos` returns; matrices are rejected.
pub open spec fn spec_cos_value(x: ValModel) -> Result<ValModel, CalcError> {
    match x {
        ValModel::Scalar(a) => Ok(ValModel::Scalar(fp::cos_of(a))),
        ValModel::Matrix(_) => Err(CalcError::NotDefinedForMatrices),
    }
}

/// What `tan` returns; matrices are rejected.
pub open spec fn spec_tan_value(x: ValModel) -> Result<ValModel, CalcError> {
    match x {
        ValModel::Scalar(a) => Ok(ValModel::Scalar(fp::tan_of(a))),
        ValModel::Matrix(_) => Err(CalcError::NotDefinedForMatrices),
    }
}

/// What `log` returns: the natural logarithm; matrices are rejected.
pub open spec fn spec_log_value(x: ValModel) -> Result<ValModel, CalcError> {
    match x {
        ValModel::Scalar(a) => Ok(ValModel::Scalar(fp::ln_of(a))),
        ValModel::Matrix(_) => Err(CalcError::NotDefinedForMatrices),
    }
}

/// What `transpose` returns; scalars are rejected.
pub open spec fn spec_transpose_value(x: ValModel) -> Result<ValModel, CalcError> {
    match x {
        ValModel::Scalar(_) => Err(CalcError::NotDefinedForScalars),
        ValModel::Matrix(m) => Ok(ValModel::Matrix(sm_transpose(m))),
    }
}

/// What `det` returns: the determinant of a square matrix, as a scalar;
/// scalars and rectangular matrices are rejected.
pub open spec fn spec_det_value(x: ValModel) -> Result<ValModel, CalcError> {
    match x {
        ValModel::Scalar(_) => Err(CalcError::NotDefinedForScalars),
        ValModel::Matrix(m) => if m.rows != m.cols {
            Err(CalcError::NonSquare)
        } else {
            Ok(ValModel::Scalar(spec_determinant(m)))
        },
    }
}

/// Adds two values.
pub fn add(left: &Value, right: &Value) -> (r: Result<Value, CalcError>)
    requires
        left@.wf(),
        right@.wf(),
    ensures
        view_result(r) == spec_add_value(left@, right@),
        r matches Ok(v) ==> v@.wf(),
{
    match (left, right) {
        (Value::Scalar(a), Value::Scalar(b)) => Ok(Value::Scalar(fp::fp_add(*a, *b))),
        (Value::Matrix(a), Value::Matrix(b)) => match Matrix::add(a, b) {
            Ok(m) => Ok(Value::Matrix(m)),
            Err(e) => Err(e),
        },
        _ => Err(CalcError::DimensionMismatch),
    }
}

/// Negates a value.
pub fn negate(x: &Value) -> (r: Result<Value, CalcError>)
    requires
        x@.wf(),
    ensures
        view_result(r) == spec_negate_value(x@),
        r matches Ok(v) ==> v@.wf(),
{
    match x {
        Value::Scalar(a) => Ok(Value::Scalar(fp::fp_neg(*a))),
        Value::Matrix(m) => Ok(Value::Matrix(m.scale(fp::NEG_ONE_BITS))),
    }
}

/// Subtracts the right value from the left one, as the sum of the left
/// operand and the negated right operand.
pub fn subtract(left: &Value, right: &Value) -> (r: Result<Value, CalcError>)
    requires
        left@.wf(),
        right@.wf(),
    ensures
        view_result(r) == spec_subtract_value(left@, right@),
        r matches Ok(v) ==> v@.wf(),
{
    let n = match negate(right) {
        Ok(v) => v,
        Err(e) => {
            return Err(e);
        },
    };
    crate::functions::add(left, &n)
}

/// Multiplies two values.
pub fn multiply(left: &Value, right: &Value) -> (r: Result<Value, CalcError>)
    requires
        left@.wf(),
        right@.wf(),
    ensures
        view_result(r) == spec_multiply_value(left@, right@),
        r matches Ok(v) ==> v@.wf(),
{
    match (left, right) {
        (Value::Scalar(a), Value::Scalar(b)) => Ok(Value::Scalar(fp::fp_mul(*a, *b))),
        (Value::Matrix(a), Value::Matrix(b)) => match Matrix::multiply(a, b) {
            Ok(m) => Ok(Value::Matrix(m)),
            Err(e) => Err(e),
        },
        (Value::Scalar(a), Value::Matrix(b)) => Ok(Value::Matrix(b.scale(*a))),
        (Value::Matrix(a), Value::Scalar(b)) => Ok(Value::Matrix(a.scale(*b))),
    }
}

/// Inverts a value: the reciprocal of a scalar, the matrix inverse of a
/// matrix.
pub fn inverse(x: &Value) -> (r: Result<Value, CalcError>)
    requires
        x@.wf(),
    ensures
        view_result(r) == spec_inverse_value(x@),
        r matches Ok(v) ==> v@.wf(),
{
    match x {
        Value::Scalar(a) => {
            if nearly_equal(*a, fp::ZERO_BITS) {
                return Err(CalcError::DivisionByZero);
            }
            Ok(Value::Scalar(fp::fp_div(fp::ONE_BITS, *a)))
        },
        Value::Matrix(m) => match m.inverse() {
            Ok(inv) => Ok(Value::Matrix(inv)),
            Err(e) => Err(e),
        },
    }
}

/// Divides the left value by the right one: the left operand multiplied
/// by the inverse of the right operand.
pub fn divide(left: &Value, right: &Value) -> (r: Result<Value, CalcError>)
    requires
        left@.wf(),
        right@.wf(),
    ensures
        view_result(r) == spec_divide_value(left@, right@),
        r matches Ok(v) ==> v@.wf(),
{
    let iv = match inverse(right) {
        Ok(v) => v,
        Err(e) => {
            return Err(e);
        },
    };
    multiply(left, &iv)
}

/// Right division: the inverse of the left operand multiplied by the
/// right operand, so that `right_divide(a, b)` solves `a * x = b`.  Of
/// the two readings seen for this operator, the engine fixes this one.
pub fn right_divide(left: &Value, right: &Value) -> (r: Result<Value, CalcError>)
    requires
        left@.wf(),
        right@.wf(),
    ensures
        view_result(r) == spec_right_divide_value(left@, right@),
        r matches Ok(v) ==> v@.wf(),
{
    let iv = match inverse(left) {
        Ok(v) => v,
        Err(e) => {
            return Err(e);
        },
    };
    multiply(&iv, right)
}

/// Raises a value to a power.  The exponent must be a scalar; a scalar
/// base uses the floating-point power, a matrix base the matrix power.
pub fn pow(a: &Value, n: &Value) -> (r: Result<Value, CalcError>)
    requires
        a@.wf(),
        n@.wf(),
    ensures
        view_result(r) == spec_pow_value(a@, n@),
        r matches Ok(v) ==> v@.wf(),
{
    if let Value::Scalar(nb) = n {
        match a {
            Value::Scalar(base) => Ok(Value::Scalar(scalars::pow(*base, *nb))),
            Value::Matrix(m) => match m.pow(*nb) {
                Ok(p) => Ok(Value::Matrix(p)),
                Err(e) => Err(e),
            },
        }
    } else {
        Err(CalcError::InvalidExponent)
    }
}

/// The absolute value of a scalar.
pub fn abs(n: &Value) -> (r: Result<Value, CalcError>)
    requires
        n@.wf(),
    ensures
        view_result(r) == spec_abs_value(n@),
        r matches Ok(v) ==> v@.wf(),
{
    if let Value::Scalar(a) = n {
        Ok(Value::Scalar(fp::fp_abs(*a)))
    } else {
        Err(CalcError::NotDefinedForMatrices)
    }
}

/// The square root of a scalar.
pub fn sqrt(n: &Value) -> (r: Result<Value, CalcError>)
    requires
        n@.wf(),
    ensures
        view_result(r) == spec_sqrt_value(n@),
        r matches Ok(v) ==> v@.wf(),
{
    if let Value::Scalar(a) = n {
        match scalars::sqrt(*a) {
            Ok(v) => Ok(Value::Scalar(v)),
            Err(e) => Err(e),
        }
    } else {
        Err(CalcError::NotDefinedForMatrices)
    }
}

/// The factorial of a non-negative scalar, truncated to a whole number.
pub fn factorial(n: &Value) -> (r: Result<Value, CalcError>)
    requires
        n@.wf(),
    ensures
        view_result(r) == spec_factorial_value(n@),
        r matches Ok(v) ==> v@.wf(),
{
    if let Value::Scalar(a) = n {
        match scalars::factorial(*a) {
            Ok(v) => Ok(Value::Scalar(v)),
            Err(e) => Err(e),
        }
    } else {
        Err(CalcError::NotDefinedForMatrices)
    }
}

/// The sine of a scalar.
pub fn sin(x: &Value) -> (r: Result<Value, CalcError>)
    requires
        x@.wf(),
    ensures
        view_result(r) == spec_sin_value(x@),
        r matches Ok(v) ==> v@.wf(),
{
    match x {
        Value::Scalar(a) => Ok(Value::Scalar(scalars::sin(*a))),
        Value::Matrix(_) => Err(CalcError::NotDefinedForMatrices),
    }
}

/// The cosine of a scalar.
pub fn cos(x: &Value) -> (r: Result<Value, CalcError>)
    requires
        x@.wf(),
    ensures
        view_result(r) == spec_cos_value(x@),
        r matches Ok(v) ==> v@.wf(),
{
    match x {
        Value::Scalar(a) => Ok(Value::Scalar(scalars::cos(*a))),
        Value::Matrix(_) => Err(CalcError::NotDefinedForMatrices),
    }
}

/// The tangent of a scalar.
pub fn tan(x: &Value) -> (r: Result<Value, CalcError>)
    requires
        x@.wf(),
    ensures
        view_result(r) == spec_tan_value(x@),
        r matches Ok(v) ==> v@.wf(),
{
    match x {
        Value::Scalar(a) => Ok(Value::Scalar(scalars::tan(*a))),
        Value::Matrix(_) => Err(CalcError::NotDefinedForMatrices),
    }
}

/// The natural logarithm of a scalar.
pub fn log(x: &Value) -> (r: Result<Value, CalcError>)
    requires
        x@.wf(),
    ensures
        view_result(r) == spec_log_value(x@),
        r matches Ok(v) ==> v@.wf(),
{
    match x {
        Value::Scalar(a) => Ok(Value::Scalar(fp::fp_ln(*a))),
        Value::Matrix(_) => Err(CalcError::NotDefinedForMatrices),
    }
}

/// The transpose of a matrix value.
pub fn transpose(a: &Value) -> (r: Result<Value, CalcError>)
    requires
        a@.wf(),
    ensures
        view_result(r) == spec_transpose_value(a@),
        r matches Ok(v) ==> v@.wf(),
{
    if let Value::Matrix(m) = a {
        Ok(Value::Matrix(m.transpose()))
    } else {
        Err(CalcError::NotDefinedForScalars)
    }
}

/// Whether every coefficient entry of row `i` of the augmented matrix
/// `m` is tolerance-zero.
fn row_coeffs_zero(m: &Matrix, i: usize) -> (r: bool)
    requires
        m@.wf(),
        i < m@.rows,
        m@.cols >= 1,
    ensures
        r == coeff_row_zero(m@, i as int),
{
    let ccols = m.cols() - 1;
    let mut j: usize = 0;
    while j < ccols
        invariant
            j <= ccols,
            m@.wf(),
            i < m@.rows,
            ccols == m@.cols - 1,
            forall|q: int|
                0 <= q < j ==> spec_nearly_equal(#[trigger] m@.at(i as int, q), fp::ZERO_BITS),
        decreases ccols - j,
    {
        if !nearly_equal(m.entry(i, j), fp::ZERO_BITS) {
            return false;
        }
        j = j + 1;
    }
    true
}

/// The first coefficient column of row `i` of the augmented matrix `m`
/// holding a tolerance-nonzero entry, or the number of coefficient
/// columns when the row is all tolerance-zero.
fn first_nz_col(m: &Matrix, i: usize) -> (r: usize)
    requires
        m@.wf(),
        i < m@.rows,
        m@.cols >= 1,
    ensures
        r as int == first_nonzero_col(m@, i as int, 0),
        r as int <= m@.cols - 1,
        (r as int) < m@.cols - 1 ==> !spec_nearly_equal(m@.at(i as int, r as int), fp::ZERO_BITS),
        r as int == m@.cols - 1 ==> coeff_row_zero(m@, i as int),
{
    let ccols = m.cols() - 1;
    let mut j: usize = 0;
    while j < ccols
        invariant
            j <= ccols,
            m@.wf(),
            i < m@.rows,
            ccols == m@.cols - 1,
            first_nonzero_col(m@, i as int, 0) == first_nonzero_col(m@, i as int, j as int),
            forall|q: int|
                0 <= q < j ==> spec_nearly_equal(#[trigger] m@.at(i as int, q), fp::ZERO_BITS),
        decreases ccols - j,
    {
        if !nearly_equal(m.entry(i, j), fp::ZERO_BITS) {
            return j;
        }
        j = j + 1;
    }
    ccols
}

/// The free-variable terms of row `i` of the reduced augmented matrix,
/// collected from the coefficient columns at or after `from`: one term
/// per tolerance-nonzero coefficient, the coefficient negated as it
/// crosses to the right-hand side.
fn build_terms(m: &Matrix, i: usize, from: usize) -> (r: Vec<FreeTerm>)
    requires
        m@.wf(),
        i < m@.rows,
        m@.cols >= 1,
        from as int <= m@.cols - 1,
    ensures
        terms_view(r@) == terms_upto(m@, i as int, from as int, m@.cols - 1),
{
    let ccols = m.cols() - 1;
    let mut terms: Vec<FreeTerm> = Vec::new();
    let mut j: usize = from;
    proof {
        assert(terms_view(terms@) =~= terms_upto(m@, i as int, from as int, from as int));
    }
    while j < ccols
        invariant
            from <= j <= ccols,
            m@.wf(),
            i < m@.rows,
            ccols == m@.cols - 1,
            terms_view(terms@) == terms_upto(m@, i as int, from as int, j as int),
        decreases ccols - j,
    {
        let x = m.entry(i, j);
        if !nearly_equal(x, fp::ZERO_BITS) {
            terms.push(FreeTerm { var: j, coeff: fp::fp_neg(x) });
        }
        j = j + 1;
        proof {
            assert(terms_view(terms@) =~= terms_upto(m@, i as int, from as int, j as int));
        }
    }
    terms
}

/// The determinant of a matrix value, as a scalar.
pub fn det(a: &Value) -> (r: Result<Value, CalcError>)
    requires
        a@.wf(),
    ensures
        view_result(r) == spec_det_value(a@),
        r matches Ok(v) ==> v@.wf(),
{
    if let Value::Matrix(m) = a {
        match m.determinant() {
            Ok(d) => Ok(Value::Scalar(d)),
            Err(e) => Err(e),
        }
    } else {
        Err(CalcError::NotDefinedForScalars)
    }
}

/// What `linsolve` returns once the reduced augmented matrix `mf` (with
/// `cols` unknowns) is classified: the unique solution vector of a
/// determined system as an `Ok` matrix; `IncompatibleSystem` when a
/// tolerance-zero row carries a tolerance-nonzero right-hand side; and
/// `IndeterminateSystem` with the parametrized solution set otherwise.
pub open spec fn spec_classify(r: Result<Value, CalcError>, mf: MatModel, cols: nat) -> bool {
    match last_nonzero_scan(mf, mf.rows - 1) {
        Err(_) => r == Err::<Value, CalcError>(CalcError::IncompatibleSystem),
        Ok(rk) => if rk + 1 == cols {
            r matches Ok(v) && v@.wf() && v@ == ValModel::Matrix(sm_solution(mf, cols))
        } else {
            r matches Err(e) && e matches CalcError::IndeterminateSystem(p) && {
                let len = p.relations@.len() as int;
                &&& len <= mf.rows
                &&& forall|q: int|
                    0 <= q < len ==> !coeff_row_zero(mf, q) && rel_model(
                        #[trigger] p.relations@[q],
                    ) == spec_relation(mf, q)
                &&& (len == mf.rows || coeff_row_zero(mf, len))
                &&& p.dependent == p.relations@.len()
                &&& p.free == (if len <= cols { cols - len } else { 0 })
            }
        },
    }
}

/// What `linsolve` returns.  The operands must both be matrices, the
/// coefficient matrix must have columns, the row counts must agree and
/// the right-hand side must be a single column, each checked in that
/// order with a descriptive `InvalidSystem` error.  An invertible
/// coefficient matrix gives the unique solution `inverse(A) * b`;
/// otherwise the augmented matrix is reduced and classified.
pub open spec fn spec_linsolve(r: Result<Value, CalcError>, x: ValModel, y: ValModel) -> bool {
    match (x, y) {
        (ValModel::Matrix(am), ValModel::Matrix(bm)) => if am.cols == 0 {
            r == Err::<Value, CalcError>(
                CalcError::InvalidSystem(InvalidSystemKind::EmptyCoefficients),
            )
        } else if am.rows != bm.rows {
            r == Err::<Value, CalcError>(
                CalcError::InvalidSystem(InvalidSystemKind::RowCountMismatch),
            )
        } else if bm.cols != 1 {
            r == Err::<Value, CalcError>(CalcError::InvalidSystem(InvalidSystemKind::RhsNotColumn))
        } else if am.rows == am.cols && !spec_nearly_equal(spec_determinant(am), fp::ZERO_BITS)
            && spec_inverse_ok(am) {
            r matches Ok(v) && v@.wf() && v@ == ValModel::Matrix(sm_mul(spec_inverse(am), bm))
        } else {
            spec_classify(r, rref_iter(sm_augment(am, bm), am.cols as int).m, am.cols)
        },
        (ValModel::Matrix(_), _) => r == Err::<Value, CalcError>(
            CalcError::InvalidSystem(InvalidSystemKind::RhsNotMatrix),
        ),
        _ => r == Err::<Value, CalcError>(
            CalcError::InvalidSystem(InvalidSystemKind::CoefficientsNotMatrix),
        ),
    }
}

/// Solves the linear system `A x = b` and classifies it.  A determined
/// system returns its unique solution vector; an incompatible system
/// fails with `IncompatibleSystem`; a compatible system with free
/// variables fails with `IndeterminateSystem` carrying the parametrized
/// solution set.
#[verifier::loop_isolation(false)]
pub fn linsolve(a: &Value, b: &Value) -> (r: Result<Value, CalcError>)
    requires
        a@.wf(),
        b@.wf(),
        a@ matches ValModel::Matrix(am) ==> am.cols < usize::MAX,
    ensures
        spec_linsolve(r, a@, b@),
{
    let am = match a {
        Value::Matrix(m) => m,
        _ => {
            return Err(CalcError::InvalidSystem(InvalidSystemKind::CoefficientsNotMatrix));
        },
    };
    let bm = match b {
        Value::Matrix(m) => m,
        _ => {
            return Err(CalcError::InvalidSystem(InvalidSystemKind::RhsNotMatrix));
        },
    };
    proof {
        assert(a@ == ValModel::Matrix(am@));
        assert(b@ == ValModel::Matrix(bm@));
    }
    let rows = am.rows();
    let cols = am.cols();
    if cols == 0 {
        return Err(CalcError::InvalidSystem(InvalidSystemKind::EmptyCoefficients));
    }
    if rows != bm.rows() {
        return Err(CalcError::InvalidSystem(InvalidSystemKind::RowCountMismatch));
    }
    if bm.cols() != 1 {
        return Err(CalcError::InvalidSystem(InvalidSystemKind::RhsNotColumn));
    }
    match am.inverse() {
        Ok(inv) => {
            let sol = match Matrix::multiply(&inv, bm) {
                Ok(m) => m,
                Err(_) => {
                    proof {
                        assert(false);
                    }
                    Matrix::new(0, 0)
                },
            };
            return Ok(Value::Matrix(sol));
        },
        Err(_) => {},
    }
    let mut aug = Matrix::augment(am, bm);
    let ghost aug0 = aug@;
    let acols = cols + 1;
    let mut i: usize = 0;
    let mut j: usize = 0;
    while i < rows && j < cols
        invariant
            i <= rows,
            j <= cols,
            acols == cols + 1,
            cols >= 1,
            am@.wf(),
            aug0.wf(),
            aug0.rows == rows,
            aug0.cols == acols,
            aug@.wf(),
            aug@.rows == rows,
            aug@.cols == acols,
            rref_iter(aug0, j as int) == (RrefState { m: aug@, row: i as int }),
        decreases cols - j,
    {
        let ghost s_pre = rref_iter(aug0, j as int);
        let p = aug.find_pivot(j, i);
        let pv = aug.entry(p, j);
        if nearly_equal(pv, fp::ZERO_BITS) {
            j = j + 1;
            proof {
                assert(rref_iter(aug0, j as int) == rref_step(s_pre, j as int - 1));
            }
        } else {
            if p != i {
                aug.swap_rows(i, p);
            }
            aug.scale_row(i, fp::fp_div(fp::ONE_BITS, pv));
            let ghost m2 = aug@;
            let mut k: usize = 0;
            proof {
                assert(aug@ =~~= elim_col_upto(m2, i as int, j as int, 0));
            }
            while k < rows
                invariant
                    k <= rows,
                    i < rows,
                    j < cols,
                    acols == cols + 1,
                    m2.wf(),
                    m2.rows == rows,
                    m2.cols == acols,
                    aug@.wf(),
                    aug@.rows == rows,
                    aug@.cols == acols,
                    aug@ == elim_col_upto(m2, i as int, j as int, k as int),
                decreases rows - k,
            {
                if k != i {
                    proof {
                        assert(aug@.elems[k as int] == m2.elems[k as int]);
                        assert(aug@.elems[i as int] == m2.elems[i as int]);
                    }
                    let factor = fp::fp_neg(aug.entry(k, j));
                    aug.add_scaled_row(k, i, factor);
                }
                k = k + 1;
                proof {
                    assert(aug@ =~~= elim_col_upto(m2, i as int, j as int, k as int));
                }
            }
            i = i + 1;
            j = j + 1;
            proof {
                assert(rref_iter(aug0, j as int) == rref_step(s_pre, j as int - 1));
                assert(rref_iter(aug0, j as int) =~~= (RrefState { m: aug@, row: i as int }));
            }
        }
    }
    proof {
        if j < cols {
            lemma_rref_stall(aug0, j as int, cols as int);
        }
        assert(rref_iter(aug0, cols as int).m == aug@);
    }
    let mut ii: usize = rows;
    let mut rank_found = false;
    let mut rk: usize = 0;
    while ii > 0 && !rank_found
        invariant
            ii <= rows,
            acols == cols + 1,
            cols >= 1,
            aug@.wf(),
            aug@.rows == rows,
            aug@.cols == acols,
            !rank_found ==> last_nonzero_scan(aug@, rows as int - 1) == last_nonzero_scan(
                aug@,
                ii as int - 1,
            ),
            rank_found ==> rk < rows && last_nonzero_scan(aug@, rows as int - 1) == Ok::<int, ()>(
                rk as int,
            ),
        decreases ii, (if rank_found { 0int } else { 1int }),
    {
        let row = ii - 1;
        if row_coeffs_zero(&aug, row) {
            if !nearly_equal(aug.entry(row, cols), fp::ZERO_BITS) {
                proof {
                    assert(last_nonzero_scan(aug@, rows as int - 1) == Err::<int, ()>(()));
                }
                return Err(CalcError::IncompatibleSystem);
            }
            ii = ii - 1;
        } else {
            rank_found = true;
            rk = row;
        }
    }
    if rank_found && rk + 1 == cols {
        let mut sol = Matrix::new(cols, 1);
        let mut t: usize = 0;
        while t < cols
            invariant
                t <= cols,
                cols <= rows,
                acols == cols + 1,
                aug@.wf(),
                aug@.rows == rows,
                aug@.cols == acols,
                sol@.wf(),
                sol@.rows == cols,
                sol@.cols == 1,
                forall|q: int|
                    0 <= q < t ==> (#[trigger] sol@.elems[q])[0] == aug@.at(q, cols as int),
            decreases cols - t,
        {
            let v = aug.entry(t, cols);
            let ghost before = sol@;
            let _ = sol.set(t, 0, v);
            proof {
                assert forall|q: int|
                    0 <= q <= t implies (#[trigger] sol@.elems[q])[0] == aug@.at(
                    q,
                    cols as int,
                ) by {
                    if q < t {
                        assert(sol@.elems[q] == before.elems[q]);
                        assert((before.elems[q])[0] == aug@.at(q, cols as int));
                    } else {
                        assert(sol@.elems[t as int] == before.elems[t as int].update(0, v));
                    }
                }
            }
            t = t + 1;
        }
        proof {
            assert(sol@ =~~= sm_solution(aug@, cols as nat));
        }
        return Ok(Value::Matrix(sol));
    }
    let mut relations: Vec<PivotRelation> = Vec::new();
    let mut idx: usize = 0;
    let mut stopped = false;
    while idx < rows && !stopped
        invariant
            idx <= rows,
            acols == cols + 1,
            cols >= 1,
            aug@.wf(),
            aug@.rows == rows,
            aug@.cols == acols,
            relations@.len() == idx,
            forall|q: int| 0 <= q < idx ==> !(#[trigger] coeff_row_zero(aug@, q)),
            forall|q: int|
                0 <= q < idx ==> rel_model(#[trigger] relations@[q]) == spec_relation(aug@, q),
            stopped ==> idx < rows && coeff_row_zero(aug@, idx as int),
        decreases rows - idx, (if stopped { 0int } else { 1int }),
    {
        let p = first_nz_col(&aug, idx);
        if p == cols {
            stopped = true;
        } else {
            let constant = aug.entry(idx, cols);
            let terms = build_terms(&aug, idx, p + 1);
            let rel = PivotRelation { var: p, constant, terms };
            proof {
                assert(rel_model(rel) == spec_relation(aug@, idx as int));
                assert(!coeff_row_zero(aug@, idx as int)) by {
                    assert(!spec_nearly_equal(aug@.at(idx as int, p as int), fp::ZERO_BITS));
                }
            }
            let ghost prev = relations@;
            relations.push(rel);
            proof {
                assert forall|q: int|
                    0 <= q < idx + 1 implies rel_model(#[trigger] relations@[q]) == spec_relation(
                    aug@,
                    q,
                ) by {
                    if q < idx {
                        assert(relations@[q] == prev[q]);
                        assert(rel_model(prev[q]) == spec_relation(aug@, q));
                    } else {
                        assert(relations@[q] == rel);
                    }
                }
            }
            idx = idx + 1;
        }
    }
    let dependent = relations.len();
    let free = if dependent <= cols {
        cols - dependent
    } else {
        0
    };
    Err(CalcError::IndeterminateSystem(Parametrization { relations, dependent, free }))
}

} // verus!
