use matcalc::error::CalcError;
use matcalc::matrix::Matrix;
use matcalc::ops::apply_binary;
use matcalc::ops::apply_unary;
use matcalc::ops::BinaryOp;
use matcalc::ops::UnaryOp;
use matcalc::utils::nearly_equal;
use matcalc::value::Value;

fn b(x: f64) -> u64 {
    x.to_bits()
}

fn f(x: u64) -> f64 {
    f64::from_bits(x)
}

fn scalar(x: f64) -> Value {
    Value::Scalar(x.to_bits())
}

fn mat(rows: Vec<Vec<f64>>) -> Value {
    let bits: Vec<Vec<u64>> = rows.iter().map(|r| r.iter().map(|x| x.to_bits()).collect()).collect();
    Value::Matrix(Matrix::from_2d(bits).unwrap())
}

fn as_scalar(v: Value) -> f64 {
    match v {
        Value::Scalar(s) => f(s),
        Value::Matrix(_) => panic!("expected a scalar"),
    }
}

fn as_matrix(v: Value) -> Matrix {
    match v {
        Value::Matrix(m) => m,
        Value::Scalar(_) => panic!("expected a matrix"),
    }
}

#[test]
fn add_scalars_and_matrices() {
    assert_eq!(as_scalar(matcalc::functions::add(&scalar(2.0), &scalar(3.0)).unwrap()), 5.0);
    let s = matcalc::functions::add(
        &mat(vec![vec![1.0, 2.0]]),
        &mat(vec![vec![10.0, 20.0]]),
    )
    .unwrap();
    let m = as_matrix(s);
    assert_eq!(f(m.get(0, 0).unwrap()), 11.0);
    assert_eq!(f(m.get(0, 1).unwrap()), 22.0);
}

#[test]
fn add_of_scalar_and_matrix_is_undefined() {
    let r = matcalc::functions::add(&scalar(1.0), &mat(vec![vec![1.0]]));
    assert!(matches!(r, Err(CalcError::DimensionMismatch)));
}

#[test]
fn negate_and_subtract() {
    assert_eq!(as_scalar(matcalc::functions::negate(&scalar(2.5)).unwrap()), -2.5);
    let m = as_matrix(matcalc::functions::negate(&mat(vec![vec![1.0, -2.0]])).unwrap());
    assert_eq!(f(m.get(0, 0).unwrap()), -1.0);
    assert_eq!(f(m.get(0, 1).unwrap()), 2.0);
    assert_eq!(
        as_scalar(matcalc::functions::subtract(&scalar(7.0), &scalar(2.0)).unwrap()),
        5.0
    );
}

#[test]
fn multiply_dispatches_on_variants() {
    assert_eq!(
        as_scalar(matcalc::functions::multiply(&scalar(3.0), &scalar(4.0)).unwrap()),
        12.0
    );
    let scaled = as_matrix(
        matcalc::functions::multiply(&scalar(2.0), &mat(vec![vec![1.0, 2.0]])).unwrap(),
    );
    assert_eq!(f(scaled.get(0, 1).unwrap()), 4.0);
    let scaled2 = as_matrix(
        matcalc::functions::multiply(&mat(vec![vec![1.0, 2.0]]), &scalar(3.0)).unwrap(),
    );
    assert_eq!(f(scaled2.get(0, 0).unwrap()), 3.0);
}

#[test]
fn divide_by_zero_scalar_fails() {
    let r = matcalc::functions::divide(&scalar(1.0), &scalar(0.0));
    assert!(matches!(r, Err(CalcError::DivisionByZero)));
}

#[test]
fn divide_scalars() {
    assert_eq!(
        as_scalar(matcalc::functions::divide(&scalar(1.0), &scalar(4.0)).unwrap()),
        0.25
    );
}

#[test]
fn inverse_of_scalar_and_matrix() {
    assert_eq!(as_scalar(matcalc::functions::inverse(&scalar(8.0)).unwrap()), 0.125);
    assert!(matches!(
        matcalc::functions::inverse(&scalar(0.0)),
        Err(CalcError::DivisionByZero)
    ));
    let inv = as_matrix(
        matcalc::functions::inverse(&mat(vec![vec![2.0, 1.0], vec![1.0, 1.0]])).unwrap(),
    );
    assert!(nearly_equal(inv.get(0, 0).unwrap(), b(1.0)));
    assert!(nearly_equal(inv.get(0, 1).unwrap(), b(-1.0)));
    assert!(nearly_equal(inv.get(1, 0).unwrap(), b(-1.0)));
    assert!(nearly_equal(inv.get(1, 1).unwrap(), b(2.0)));
}

#[test]
fn right_divide_inverts_the_left_operand() {
    let r = as_scalar(matcalc::functions::right_divide(&scalar(4.0), &scalar(8.0)).unwrap());
    assert_eq!(r, 2.0);
    assert!(matches!(
        matcalc::functions::right_divide(&scalar(0.0), &scalar(8.0)),
        Err(CalcError::DivisionByZero)
    ));
}

#[test]
fn pow_of_scalars_and_matrices() {
    assert_eq!(
        as_scalar(matcalc::functions::pow(&scalar(2.0), &scalar(10.0)).unwrap()),
        1024.0
    );
    let r = matcalc::functions::pow(&scalar(2.0), &mat(vec![vec![1.0]]));
    assert!(matches!(r, Err(CalcError::InvalidExponent)));
    let sq = as_matrix(
        matcalc::functions::pow(&mat(vec![vec![2.0, 0.0], vec![0.0, 3.0]]), &scalar(2.0)).unwrap(),
    );
    assert_eq!(f(sq.get(0, 0).unwrap()), 4.0);
    assert_eq!(f(sq.get(1, 1).unwrap()), 9.0);
}

#[test]
fn abs_clears_the_sign() {
    assert_eq!(as_scalar(matcalc::functions::abs(&scalar(-3.5)).unwrap()), 3.5);
    assert!(matches!(
        matcalc::functions::abs(&mat(vec![vec![1.0]])),
        Err(CalcError::NotDefinedForMatrices)
    ));
}

#[test]
fn sqrt_of_scalars() {
    assert_eq!(as_scalar(matcalc::functions::sqrt(&scalar(4.0)).unwrap()), 2.0);
    assert!(matches!(
        matcalc::functions::sqrt(&scalar(-1.0)),
        Err(CalcError::NegativeSqrt)
    ));
    assert!(matches!(
        matcalc::functions::sqrt(&mat(vec![vec![4.0]])),
        Err(CalcError::NotDefinedForMatrices)
    ));
}

#[test]
fn factorial_truncates_and_accumulates() {
    assert_eq!(as_scalar(matcalc::functions::factorial(&scalar(5.0)).unwrap()), 120.0);
    assert_eq!(as_scalar(matcalc::functions::factorial(&scalar(5.9)).unwrap()), 120.0);
    assert_eq!(as_scalar(matcalc::functions::factorial(&scalar(0.0)).unwrap()), 1.0);
    assert!(matches!(
        matcalc::functions::factorial(&scalar(-1.0)),
        Err(CalcError::NegativeFactorial)
    ));
    assert!(matches!(
        matcalc::functions::factorial(&mat(vec![vec![1.0]])),
        Err(CalcError::NotDefinedForMatrices)
    ));
}

#[test]
fn trig_and_log_on_scalars() {
    assert_eq!(as_scalar(matcalc::functions::sin(&scalar(0.0)).unwrap()), 0.0);
    assert_eq!(as_scalar(matcalc::functions::cos(&scalar(0.0)).unwrap()), 1.0);
    assert_eq!(as_scalar(matcalc::functions::tan(&scalar(0.0)).unwrap()), 0.0);
    assert_eq!(as_scalar(matcalc::functions::log(&scalar(1.0)).unwrap()), 0.0);
    assert!(nearly_equal(
        as_scalar(matcalc::functions::sin(&scalar(1.0)).unwrap()).to_bits(),
        1.0f64.sin().to_bits(),
    ));
    assert!(matches!(
        matcalc::functions::sin(&mat(vec![vec![0.0]])),
        Err(CalcError::NotDefinedForMatrices)
    ));
    assert!(matches!(
        matcalc::functions::log(&mat(vec![vec![1.0]])),
        Err(CalcError::NotDefinedForMatrices)
    ));
}

#[test]
fn transpose_and_det_reject_scalars() {
    assert!(matches!(
        matcalc::functions::transpose(&scalar(1.0)),
        Err(CalcError::NotDefinedForScalars)
    ));
    assert!(matches!(
        matcalc::functions::det(&scalar(1.0)),
        Err(CalcError::NotDefinedForScalars)
    ));
    let d = as_scalar(
        matcalc::functions::det(&mat(vec![vec![2.0, 1.0], vec![1.0, 1.0]])).unwrap(),
    );
    assert_eq!(d, 1.0);
}

#[test]
fn scalar_helpers() {
    assert_eq!(matcalc::functions::scalars::sqrt(b(9.0)), Ok(b(3.0)));
    assert!(matches!(
        matcalc::functions::scalars::sqrt(b(-9.0)),
        Err(CalcError::NegativeSqrt)
    ));
    assert_eq!(f(matcalc::functions::scalars::pow(b(3.0), b(3.0))), 27.0);
    assert_eq!(matcalc::functions::scalars::factorial(b(6.0)), Ok(b(720.0)));
    assert_eq!(f(matcalc::functions::scalars::sin(b(0.0))), 0.0);
    assert_eq!(f(matcalc::functions::scalars::cos(b(0.0))), 1.0);
    assert_eq!(f(matcalc::functions::scalars::tan(b(0.0))), 0.0);
}

#[test]
fn unary_operators_dispatch() {
    assert_eq!(as_scalar(apply_unary(&UnaryOp::Positive, &scalar(3.0)).unwrap()), 3.0);
    assert_eq!(as_scalar(apply_unary(&UnaryOp::Negate, &scalar(3.0)).unwrap()), -3.0);
    assert_eq!(
        as_scalar(apply_unary(&UnaryOp::Factorial, &scalar(4.0)).unwrap()),
        24.0
    );
    let t = as_matrix(apply_unary(&UnaryOp::Transpose, &mat(vec![vec![1.0, 2.0]])).unwrap());
    assert_eq!(t.rows(), 2);
    assert_eq!(t.cols(), 1);
}

#[test]
fn binary_operators_dispatch() {
    assert_eq!(
        as_scalar(apply_binary(&BinaryOp::Add, &scalar(2.0), &scalar(3.0)).unwrap()),
        5.0
    );
    assert_eq!(
        as_scalar(apply_binary(&BinaryOp::Subtract, &scalar(2.0), &scalar(3.0)).unwrap()),
        -1.0
    );
    assert_eq!(
        as_scalar(apply_binary(&BinaryOp::Multiply, &scalar(2.0), &scalar(3.0)).unwrap()),
        6.0
    );
    assert_eq!(
        as_scalar(apply_binary(&BinaryOp::Divide, &scalar(3.0), &scalar(2.0)).unwrap()),
        1.5
    );
    assert_eq!(
        as_scalar(apply_binary(&BinaryOp::RightDivide, &scalar(2.0), &scalar(3.0)).unwrap()),
        1.5
    );
    assert_eq!(
        as_scalar(apply_binary(&BinaryOp::Power, &scalar(2.0), &scalar(3.0)).unwrap()),
        8.0
    );
}
