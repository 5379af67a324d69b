use matcalc::error::CalcError;
use matcalc::error::InvalidSystemKind;
use matcalc::functions::linsolve;
use matcalc::matrix::Matrix;
use matcalc::utils::nearly_equal;
use matcalc::value::Value;

fn b(x: f64) -> u64 {
    x.to_bits()
}

fn f(x: u64) -> f64 {
    f64::from_bits(x)
}

fn scalar(x: f64) -> Value {
    Value::Scalar(x.to_bits())
}

fn mat(rows: Vec<Vec<f64>>) -> Value {
    let bits: Vec<Vec<u64>> = rows.iter().map(|r| r.iter().map(|x| x.to_bits()).collect()).collect();
    Value::Matrix(Matrix::from_2d(bits).unwrap())
}

fn as_matrix(v: Value) -> Matrix {
    match v {
        Value::Matrix(m) => m,
        Value::Scalar(_) => panic!("expected a matrix"),
    }
}

#[test]
fn determined_system_has_the_unique_solution() {
    let a = mat(vec![vec![2.0, 1.0], vec![1.0, 1.0]]);
    let rhs = mat(vec![vec![3.0], vec![2.0]]);
    let sol = as_matrix(linsolve(&a, &rhs).unwrap());
    assert_eq!(sol.rows(), 2);
    assert_eq!(sol.cols(), 1);
    assert!(nearly_equal(sol.get(0, 0).unwrap(), b(1.0)));
    assert!(nearly_equal(sol.get(1, 0).unwrap(), b(1.0)));
}

#[test]
fn indeterminate_system_reports_its_parametrization() {
    let a = mat(vec![vec![1.0, 1.0], vec![2.0, 2.0]]);
    let rhs = mat(vec![vec![2.0], vec![4.0]]);
    match linsolve(&a, &rhs) {
        Err(CalcError::IndeterminateSystem(p)) => {
            assert_eq!(p.dependent, 1);
            assert_eq!(p.free, 1);
            assert_eq!(p.relations.len(), 1);
            let rel = &p.relations[0];
            assert_eq!(rel.var, 0);
            assert_eq!(f(rel.constant), 2.0);
            assert_eq!(rel.terms.len(), 1);
            assert_eq!(rel.terms[0].var, 1);
            assert_eq!(f(rel.terms[0].coeff), -1.0);
        },
        other => panic!("expected an indeterminate system, got {:?}", other),
    }
}

#[test]
fn incompatible_system_is_reported() {
    let a = mat(vec![vec![1.0, 1.0], vec![2.0, 2.0]]);
    let rhs = mat(vec![vec![2.0], vec![5.0]]);
    assert!(matches!(
        linsolve(&a, &rhs),
        Err(CalcError::IncompatibleSystem)
    ));
}

#[test]
fn rectangular_overdetermined_system() {
    let a = mat(vec![vec![1.0, 0.0], vec![0.0, 1.0], vec![1.0, 1.0]]);
    let rhs = mat(vec![vec![2.0], vec![3.0], vec![5.0]]);
    let sol = as_matrix(linsolve(&a, &rhs).unwrap());
    assert_eq!(sol.rows(), 2);
    assert!(nearly_equal(sol.get(0, 0).unwrap(), b(2.0)));
    assert!(nearly_equal(sol.get(1, 0).unwrap(), b(3.0)));
}

#[test]
fn rectangular_inconsistent_system() {
    let a = mat(vec![vec![1.0, 0.0], vec![0.0, 1.0], vec![1.0, 1.0]]);
    let rhs = mat(vec![vec![2.0], vec![3.0], vec![6.0]]);
    assert!(matches!(
        linsolve(&a, &rhs),
        Err(CalcError::IncompatibleSystem)
    ));
}

#[test]
fn wide_system_is_indeterminate() {
    let a = mat(vec![vec![1.0, 2.0, 3.0]]);
    let rhs = mat(vec![vec![6.0]]);
    match linsolve(&a, &rhs) {
        Err(CalcError::IndeterminateSystem(p)) => {
            assert_eq!(p.dependent, 1);
            assert_eq!(p.free, 2);
        },
        other => panic!("expected an indeterminate system, got {:?}", other),
    }
}

#[test]
fn operands_must_be_matrices() {
    let rhs = mat(vec![vec![1.0]]);
    assert!(matches!(
        linsolve(&scalar(1.0), &rhs),
        Err(CalcError::InvalidSystem(InvalidSystemKind::CoefficientsNotMatrix))
    ));
    let a = mat(vec![vec![1.0]]);
    assert!(matches!(
        linsolve(&a, &scalar(1.0)),
        Err(CalcError::InvalidSystem(InvalidSystemKind::RhsNotMatrix))
    ));
}

#[test]
fn coefficient_matrix_must_have_columns() {
    let a = Value::Matrix(Matrix::new(0, 0));
    let rhs = mat(vec![vec![1.0]]);
    assert!(matches!(
        linsolve(&a, &rhs),
        Err(CalcError::InvalidSystem(InvalidSystemKind::EmptyCoefficients))
    ));
}

#[test]
fn row_counts_must_agree() {
    let a = mat(vec![vec![1.0, 1.0]]);
    let rhs = mat(vec![vec![1.0], vec![2.0]]);
    assert!(matches!(
        linsolve(&a, &rhs),
        Err(CalcError::InvalidSystem(InvalidSystemKind::RowCountMismatch))
    ));
}

#[test]
fn right_hand_side_must_be_one_column() {
    let a = mat(vec![vec![1.0, 1.0], vec![0.0, 1.0]]);
    let rhs = mat(vec![vec![1.0, 2.0], vec![2.0, 3.0]]);
    assert!(matches!(
        linsolve(&a, &rhs),
        Err(CalcError::InvalidSystem(InvalidSystemKind::RhsNotColumn))
    ));
}

#[test]
fn single_impossible_equation() {
    let a = mat(vec![vec![0.0]]);
    let rhs = mat(vec![vec![5.0]]);
    assert!(matches!(
        linsolve(&a, &rhs),
        Err(CalcError::IncompatibleSystem)
    ));
}

#[test]
fn three_by_three_determined_system() {
    let a = mat(vec![
        vec![1.0, 1.0, 1.0],
        vec![0.0, 2.0, 5.0],
        vec![2.0, 5.0, -1.0],
    ]);
    let rhs = mat(vec![vec![6.0], vec![-4.0], vec![27.0]]);
    let sol = as_matrix(linsolve(&a, &rhs).unwrap());
    assert!(nearly_equal(sol.get(0, 0).unwrap(), b(5.0)));
    assert!(nearly_equal(sol.get(1, 0).unwrap(), b(3.0)));
    assert!(nearly_equal(sol.get(2, 0).unwrap(), b(-2.0)));
}

#[test]
fn system_with_no_equations_is_indeterminate() {
    let a = Value::Matrix(Matrix::new(0, 2));
    let rhs = Value::Matrix(Matrix::new(0, 1));
    match linsolve(&a, &rhs) {
        Err(CalcError::IndeterminateSystem(p)) => {
            assert_eq!(p.dependent, 0);
            assert_eq!(p.free, 2);
            assert!(p.relations.is_empty());
        },
        other => panic!("expected an indeterminate system, got {:?}", other),
    }
}
