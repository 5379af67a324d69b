use matcalc::error::CalcError;
use matcalc::matrix::Matrix;
use matcalc::utils::nearly_equal;

fn b(x: f64) -> u64 {
    x.to_bits()
}

fn f(x: u64) -> f64 {
    f64::from_bits(x)
}

fn mat(rows: Vec<Vec<f64>>) -> Matrix {
    let bits: Vec<Vec<u64>> = rows.iter().map(|r| r.iter().map(|x| x.to_bits()).collect()).collect();
    Matrix::from_2d(bits).unwrap()
}

fn assert_same(a: &Matrix, rows: Vec<Vec<f64>>) {
    assert_eq!(a.rows(), rows.len());
    for (i, row) in rows.iter().enumerate() {
        assert_eq!(a.cols(), row.len());
        for (j, x) in row.iter().enumerate() {
            assert_eq!(f(a.get(i, j).unwrap()), *x, "at ({}, {})", i, j);
        }
    }
}

#[test]
fn new_is_zero_filled() {
    let m = Matrix::new(2, 3);
    assert_same(&m, vec![vec![0.0, 0.0, 0.0], vec![0.0, 0.0, 0.0]]);
}

#[test]
fn from_scalar_is_one_by_one() {
    let m = Matrix::from_scalar(b(7.5));
    assert_same(&m, vec![vec![7.5]]);
}

#[test]
fn from_2d_rejects_ragged_rows() {
    let r = Matrix::from_2d(vec![vec![b(1.0), b(2.0)], vec![b(3.0)]]);
    assert!(matches!(r, Err(CalcError::DimensionMismatch)));
}

#[test]
fn from_2d_empty_gives_empty_matrix() {
    let m = Matrix::from_2d(vec![]).unwrap();
    assert_eq!(m.rows(), 0);
    assert_eq!(m.cols(), 0);
}

#[test]
fn identity_contents() {
    let m = Matrix::identity(3);
    assert_same(
        &m,
        vec![vec![1.0, 0.0, 0.0], vec![0.0, 1.0, 0.0], vec![0.0, 0.0, 1.0]],
    );
    assert!(m.is_identity());
    assert!(m.is_square());
}

#[test]
fn get_and_set_bounds() {
    let mut m = Matrix::new(2, 2);
    assert!(matches!(m.get(2, 0), Err(CalcError::IndexOutOfRange)));
    assert!(matches!(m.get(0, 2), Err(CalcError::IndexOutOfRange)));
    assert!(matches!(m.set(2, 0, b(1.0)), Err(CalcError::IndexOutOfRange)));
    m.set(1, 1, b(4.0)).unwrap();
    assert_eq!(f(m.get(1, 1).unwrap()), 4.0);
}

#[test]
fn add_elementwise() {
    let a = mat(vec![vec![1.0, 2.0], vec![3.0, 4.0]]);
    let c = Matrix::add(&a, &mat(vec![vec![10.0, 20.0], vec![30.0, 40.0]])).unwrap();
    assert_same(&c, vec![vec![11.0, 22.0], vec![33.0, 44.0]]);
}

#[test]
fn add_rejects_dimension_mismatch() {
    let a = mat(vec![vec![1.0, 2.0]]);
    let c = mat(vec![vec![1.0], vec![2.0]]);
    assert!(matches!(Matrix::add(&a, &c), Err(CalcError::DimensionMismatch)));
}

#[test]
fn multiply_two_by_two() {
    let a = mat(vec![vec![1.0, 2.0], vec![3.0, 4.0]]);
    let c = mat(vec![vec![5.0, 6.0], vec![7.0, 8.0]]);
    let p = Matrix::multiply(&a, &c).unwrap();
    assert_same(&p, vec![vec![19.0, 22.0], vec![43.0, 50.0]]);
}

#[test]
fn multiply_rectangular_shapes() {
    let a = mat(vec![vec![1.0, 0.0, 2.0]]);
    let c = mat(vec![vec![1.0], vec![5.0], vec![3.0]]);
    let p = Matrix::multiply(&a, &c).unwrap();
    assert_same(&p, vec![vec![7.0]]);
}

#[test]
fn multiply_rejects_inner_mismatch() {
    let a = mat(vec![vec![1.0, 2.0]]);
    assert!(matches!(
        Matrix::multiply(&a, &a),
        Err(CalcError::DimensionMismatch)
    ));
}

#[test]
fn scale_multiplies_every_element() {
    let a = mat(vec![vec![1.0, -2.0], vec![0.5, 4.0]]);
    let s = a.scale(b(2.0));
    assert_same(&s, vec![vec![2.0, -4.0], vec![1.0, 8.0]]);
}

#[test]
fn transpose_swaps_dimensions() {
    let a = mat(vec![vec![1.0, 2.0, 3.0], vec![4.0, 5.0, 6.0]]);
    let t = a.transpose();
    assert_same(&t, vec![vec![1.0, 4.0], vec![2.0, 5.0], vec![3.0, 6.0]]);
}

#[test]
fn transpose_twice_is_exactly_the_original() {
    let a = mat(vec![vec![1.5, -2.25, 3.0], vec![0.0, -0.0, 6.125]]);
    let t = a.transpose().transpose();
    assert_eq!(t.rows(), a.rows());
    assert_eq!(t.cols(), a.cols());
    for i in 0..a.rows() {
        for j in 0..a.cols() {
            assert_eq!(t.get(i, j).unwrap(), a.get(i, j).unwrap());
        }
    }
}

#[test]
fn elemental_matrices() {
    let p = Matrix::elemental_i(3, 0, 2).unwrap();
    assert_same(
        &p,
        vec![vec![0.0, 0.0, 1.0], vec![0.0, 1.0, 0.0], vec![1.0, 0.0, 0.0]],
    );
    let s = Matrix::elemental_ii(2, 1, b(5.0)).unwrap();
    assert_same(&s, vec![vec![1.0, 0.0], vec![0.0, 5.0]]);
    let e = Matrix::elemental_iii(2, 0, 1, b(3.0)).unwrap();
    assert_same(&e, vec![vec![1.0, 3.0], vec![0.0, 1.0]]);
    assert!(matches!(Matrix::elemental_i(2, 2, 0), Err(CalcError::IndexOutOfRange)));
    assert!(matches!(
        Matrix::elemental_ii(2, 2, b(1.0)),
        Err(CalcError::IndexOutOfRange)
    ));
    assert!(matches!(
        Matrix::elemental_iii(2, 0, 2, b(1.0)),
        Err(CalcError::IndexOutOfRange)
    ));
}

#[test]
fn determinant_of_two_by_two() {
    let a = mat(vec![vec![2.0, 1.0], vec![1.0, 1.0]]);
    assert_eq!(f(a.determinant().unwrap()), 1.0);
}

#[test]
fn determinant_of_singular_matrix_is_zero() {
    let a = mat(vec![vec![1.0, 2.0], vec![2.0, 4.0]]);
    assert_eq!(a.determinant().unwrap(), b(0.0));
}

#[test]
fn determinant_rejects_rectangular() {
    let a = mat(vec![vec![1.0, 2.0]]);
    assert!(matches!(a.determinant(), Err(CalcError::NonSquare)));
}

#[test]
fn determinant_of_product_matches_product_of_determinants() {
    let a = mat(vec![vec![2.0, 1.0], vec![1.0, 1.0]]);
    let c = mat(vec![vec![3.0, -1.0], vec![0.5, 2.0]]);
    let p = Matrix::multiply(&a, &c).unwrap();
    let dp = f(p.determinant().unwrap());
    let da = f(a.determinant().unwrap());
    let dc = f(c.determinant().unwrap());
    assert!(nearly_equal(dp.to_bits(), (da * dc).to_bits()));
}

#[test]
fn inverse_times_original_is_identity() {
    let a = mat(vec![vec![2.0, 1.0], vec![1.0, 1.0]]);
    let inv = a.inverse().unwrap();
    let p = Matrix::multiply(&a, &inv).unwrap();
    assert!(p.is_identity());
    let q = Matrix::multiply(&inv, &a).unwrap();
    assert!(q.is_identity());
}

#[test]
fn inverse_of_three_by_three() {
    let a = mat(vec![
        vec![1.0, 2.0, 0.0],
        vec![0.0, 1.0, 0.0],
        vec![4.0, 0.0, 1.0],
    ]);
    let inv = a.inverse().unwrap();
    let p = Matrix::multiply(&a, &inv).unwrap();
    assert!(p.is_identity());
}

#[test]
fn inverse_rejects_singular_and_rectangular() {
    let s = mat(vec![vec![1.0, 2.0], vec![2.0, 4.0]]);
    assert!(matches!(s.inverse(), Err(CalcError::Singular)));
    let r = mat(vec![vec![1.0, 2.0]]);
    assert!(matches!(r.inverse(), Err(CalcError::NonSquare)));
}

#[test]
fn pow_zero_is_identity() {
    let a = mat(vec![vec![2.0, 1.0], vec![1.0, 1.0]]);
    let p = a.pow(b(0.0)).unwrap();
    assert!(p.is_identity());
    assert_eq!(p.get(0, 0).unwrap(), b(1.0));
    assert_eq!(p.get(0, 1).unwrap(), b(0.0));
}

#[test]
fn pow_is_repeated_multiplication() {
    let a = mat(vec![vec![2.0, 1.0], vec![1.0, 1.0]]);
    let p = a.pow(b(3.0)).unwrap();
    let i = Matrix::identity(2);
    let step1 = Matrix::multiply(&a, &i).unwrap();
    let step2 = Matrix::multiply(&a, &step1).unwrap();
    let step3 = Matrix::multiply(&a, &step2).unwrap();
    for r in 0..2 {
        for c in 0..2 {
            assert_eq!(p.get(r, c).unwrap(), step3.get(r, c).unwrap());
        }
    }
}

#[test]
fn pow_negative_one_matches_inverse() {
    let a = mat(vec![vec![2.0, 1.0], vec![1.0, 1.0]]);
    let p = a.pow(b(-1.0)).unwrap();
    let inv = a.inverse().unwrap();
    for r in 0..2 {
        for c in 0..2 {
            assert!(nearly_equal(p.get(r, c).unwrap(), inv.get(r, c).unwrap()));
        }
    }
}

#[test]
fn pow_rejects_fractional_exponents_and_rectangles() {
    let a = mat(vec![vec![2.0, 1.0], vec![1.0, 1.0]]);
    assert!(matches!(a.pow(b(0.5)), Err(CalcError::InvalidExponent)));
    let r = mat(vec![vec![1.0, 2.0]]);
    assert!(matches!(r.pow(b(2.0)), Err(CalcError::NonSquare)));
    let s = mat(vec![vec![1.0, 2.0], vec![2.0, 4.0]]);
    assert!(matches!(s.pow(b(-2.0)), Err(CalcError::Singular)));
}

#[test]
fn is_identity_tolerates_noise_and_rejects_others() {
    let close = mat(vec![vec![1.0 + 1e-14, 0.0], vec![0.0, 1.0]]);
    assert!(close.is_identity());
    let not = mat(vec![vec![1.0, 0.1], vec![0.0, 1.0]]);
    assert!(!not.is_identity());
    let rect = mat(vec![vec![1.0, 0.0]]);
    assert!(!rect.is_identity());
}

#[test]
fn empty_matrix_is_a_valid_state() {
    let m = Matrix::new(0, 3);
    assert_eq!(m.rows(), 0);
    assert_eq!(m.cols(), 3);
    assert!(matches!(m.get(0, 0), Err(CalcError::IndexOutOfRange)));
}

#[test]
fn determinant_of_empty_matrix_is_one() {
    let m = Matrix::new(0, 0);
    assert_eq!(f(m.determinant().unwrap()), 1.0);
}
