use mlr::determinant::matrix_determinant;
use mlr::elementwise::{matrix_add, matrix_hadamard_prod, matrix_scalar, matrix_sub};
use mlr::error::AlgebraError;
use mlr::inverse::{matrix_adjugate, matrix_cofactor, matrix_inverse};
use mlr::matrix_vector::matrix_by_vector;
use mlr::minor::minor;
use mlr::product::matrix_dot_prod;
use mlr::transpose::matrix_transpose;

fn close(a: &[Vec<f64>], b: &[Vec<f64>]) -> bool {
    a.len() == b.len()
        && a.iter().zip(b.iter()).all(|(r, s)| {
            r.len() == s.len() && r.iter().zip(s.iter()).all(|(x, y)| (x - y).abs() < 1e-9)
        })
}

fn identity(n: usize) -> Vec<Vec<f64>> {
    (0..n)
        .map(|i| (0..n).map(|j| if i == j { 1.0 } else { 0.0 }).collect())
        .collect()
}

#[test]
fn determinant_of_two_by_two_is_ten() {
    let a = vec![vec![4.0, 7.0], vec![2.0, 6.0]];
    assert_eq!(matrix_determinant(&a), 10.0);
}

#[test]
fn inverse_of_two_by_two() {
    let a = vec![vec![4.0, 7.0], vec![2.0, 6.0]];
    let inv = matrix_inverse(&a).unwrap();
    assert!(close(&inv, &[vec![0.6, -0.7], vec![-0.2, 0.4]]));
}

#[test]
fn multiply_two_by_two() {
    let a = vec![vec![1.0, 2.0], vec![3.0, 4.0]];
    let b = vec![vec![5.0, 6.0], vec![7.0, 8.0]];
    assert_eq!(matrix_dot_prod(&a, &b), Ok(vec![vec![19.0, 22.0], vec![43.0, 50.0]]));
}

#[test]
fn multiply_integers() {
    let a: Vec<Vec<i64>> = vec![vec![1, 2], vec![3, 4]];
    let b: Vec<Vec<i64>> = vec![vec![5, 6], vec![7, 8]];
    assert_eq!(matrix_dot_prod(&a, &b), Ok(vec![vec![19, 22], vec![43, 50]]));
}

#[test]
fn multiply_rectangular_shapes() {
    let a = vec![vec![1.0, 2.0, 3.0]];
    let b = vec![vec![1.0], vec![2.0], vec![3.0]];
    assert_eq!(matrix_dot_prod(&a, &b), Ok(vec![vec![14.0]]));
    assert_eq!(
        matrix_dot_prod(&b, &a),
        Ok(vec![vec![1.0, 2.0, 3.0], vec![2.0, 4.0, 6.0], vec![3.0, 6.0, 9.0]])
    );
}

#[test]
fn multiply_incompatible() {
    let a = vec![vec![1.0, 2.0], vec![3.0, 4.0]];
    let b = vec![vec![1.0, 2.0, 3.0]];
    assert_eq!(matrix_dot_prod(&a, &b), Err(AlgebraError::IncompatibleDimensions));
}

#[test]
fn multiply_ragged_is_malformed() {
    let a = vec![vec![1.0, 2.0], vec![3.0]];
    let b = vec![vec![1.0], vec![2.0]];
    assert_eq!(matrix_dot_prod(&a, &b), Err(AlgebraError::MalformedMatrix));
}

#[test]
fn add_mismatched_shapes() {
    let a = vec![vec![1.0, 2.0]];
    let b = vec![vec![1.0, 2.0, 3.0]];
    assert_eq!(matrix_add(&a, &b), Err(AlgebraError::DimensionMismatch));
}

#[test]
fn add_mismatched_row_counts() {
    let a = vec![vec![1.0, 2.0]];
    let b = vec![vec![1.0, 2.0], vec![3.0, 4.0]];
    assert_eq!(matrix_add(&a, &b), Err(AlgebraError::DimensionMismatch));
}

#[test]
fn add_sub_hadamard_cells() {
    let a = vec![vec![1.0, 2.0], vec![3.0, 4.0]];
    let b = vec![vec![5.0, 6.0], vec![7.0, 8.0]];
    assert_eq!(matrix_add(&a, &b), Ok(vec![vec![6.0, 8.0], vec![10.0, 12.0]]));
    assert_eq!(matrix_sub(&a, &b), Ok(vec![vec![-4.0, -4.0], vec![-4.0, -4.0]]));
    assert_eq!(matrix_hadamard_prod(&a, &b), Ok(vec![vec![5.0, 12.0], vec![21.0, 32.0]]));
}

#[test]
fn sub_and_hadamard_mismatch() {
    let a = vec![vec![1.0, 2.0]];
    let b = vec![vec![1.0], vec![2.0]];
    assert_eq!(matrix_sub(&a, &b), Err(AlgebraError::DimensionMismatch));
    assert_eq!(matrix_hadamard_prod(&a, &b), Err(AlgebraError::DimensionMismatch));
}

#[test]
fn add_keeps_ragged_shapes_that_agree() {
    let a = vec![vec![1.0], vec![2.0, 3.0]];
    let b = vec![vec![10.0], vec![20.0, 30.0]];
    assert_eq!(matrix_add(&a, &b), Ok(vec![vec![11.0], vec![22.0, 33.0]]));
}

#[test]
fn scalar_multiplies_every_cell() {
    let a = vec![vec![1.0, -2.0], vec![3.0, 4.5]];
    assert_eq!(matrix_scalar(&a, 2.0), Ok(vec![vec![2.0, -4.0], vec![6.0, 9.0]]));
}

#[test]
fn scalar_refuses_ragged_and_empty() {
    let ragged = vec![vec![1.0, 2.0], vec![3.0]];
    assert_eq!(matrix_scalar(&ragged, 2.0), Err(AlgebraError::MalformedMatrix));
    let empty: Vec<Vec<f64>> = Vec::new();
    assert_eq!(matrix_scalar(&empty, 2.0), Err(AlgebraError::MalformedMatrix));
}

#[test]
fn transpose_two_by_three() {
    let a = vec![vec![1.0, 2.0, 3.0], vec![4.0, 5.0, 6.0]];
    assert_eq!(
        matrix_transpose(&a),
        vec![vec![1.0, 4.0], vec![2.0, 5.0], vec![3.0, 6.0]]
    );
}

#[test]
fn transpose_twice_is_identity() {
    let a = vec![vec![1.0, 2.0, 3.0], vec![4.0, 5.0, 6.0]];
    let t = matrix_transpose(&a);
    assert_eq!(matrix_transpose(&t), a);
}

#[test]
fn minor_removes_row_and_column() {
    let a = vec![vec![1, 2, 3], vec![4, 5, 6], vec![7, 8, 9]];
    assert_eq!(minor(&a, 1, 0), vec![vec![2, 3], vec![8, 9]]);
    assert_eq!(minor(&a, 0, 2), vec![vec![4, 5], vec![7, 8]]);
}

#[test]
fn determinant_small_sizes() {
    let one = vec![vec![7.5]];
    assert_eq!(matrix_determinant(&one), 7.5);
    let empty: Vec<Vec<f64>> = Vec::new();
    assert_eq!(matrix_determinant(&empty), 1.0);
    let three = vec![vec![2.0, 0.0, 1.0], vec![1.0, 3.0, 2.0], vec![1.0, 1.0, 2.0]];
    assert_eq!(matrix_determinant(&three), 6.0);
}

#[test]
fn determinant_four_by_four_integers() {
    let a: Vec<Vec<i64>> = vec![
        vec![1, 0, 2, -1],
        vec![3, 0, 0, 5],
        vec![2, 1, 4, -3],
        vec![1, 0, 5, 0],
    ];
    assert_eq!(matrix_determinant(&a), 30);
}

#[test]
fn determinant_zero_row_is_zero() {
    let a = vec![vec![1.0, 2.0, 3.0], vec![0.0, 0.0, 0.0], vec![4.0, 5.0, 6.0]];
    assert_eq!(matrix_determinant(&a), 0.0);
    let b = vec![vec![0.0, 0.0, 0.0], vec![1.0, 2.0, 3.0], vec![4.0, 5.0, 6.0]];
    assert_eq!(matrix_determinant(&b), 0.0);
}

#[test]
fn determinant_identical_rows_is_zero() {
    let a = vec![vec![1.0, 2.0, 3.0], vec![4.0, 5.0, 6.0], vec![1.0, 2.0, 3.0]];
    assert_eq!(matrix_determinant(&a), 0.0);
    let b = vec![vec![2.0, 3.0], vec![2.0, 3.0]];
    assert_eq!(matrix_determinant(&b), 0.0);
}

#[test]
fn cofactor_three_by_three() {
    let a = vec![vec![1.0, 2.0, 3.0], vec![0.0, 4.0, 5.0], vec![1.0, 0.0, 6.0]];
    assert_eq!(
        matrix_cofactor(&a),
        vec![
            vec![24.0, 5.0, -4.0],
            vec![-12.0, 3.0, 2.0],
            vec![-2.0, -5.0, 4.0]
        ]
    );
}

#[test]
fn cofactor_of_one_by_one_is_one() {
    let a = vec![vec![5.0]];
    assert_eq!(matrix_cofactor(&a), vec![vec![1.0]]);
}

#[test]
fn inverse_of_one_by_one() {
    let a = vec![vec![5.0]];
    assert_eq!(matrix_inverse(&a), Ok(vec![vec![0.2]]));
    let p = matrix_dot_prod(&a, &matrix_inverse(&a).unwrap()).unwrap();
    assert!(close(&p, &identity(1)));
}

#[test]
fn cofactor_and_adjugate_of_integers() {
    let a: Vec<Vec<i64>> = vec![vec![1, 2, 3], vec![0, 4, 5], vec![1, 0, 6]];
    assert_eq!(
        matrix_adjugate(&a),
        Ok(vec![vec![24, -12, -2], vec![5, 3, -5], vec![-4, 2, 4]])
    );
}

#[test]
fn adjugate_two_by_two() {
    let a = vec![vec![4.0, 7.0], vec![2.0, 6.0]];
    assert_eq!(matrix_adjugate(&a), Ok(vec![vec![6.0, -7.0], vec![-2.0, 4.0]]));
}

#[test]
fn adjugate_non_square() {
    let a = vec![vec![1.0, 2.0, 3.0], vec![4.0, 5.0, 6.0]];
    assert_eq!(matrix_adjugate(&a), Err(AlgebraError::NotSquare));
}

#[test]
fn inverse_non_square() {
    let a = vec![vec![1.0, 2.0, 3.0], vec![4.0, 5.0, 6.0]];
    assert_eq!(matrix_inverse(&a), Err(AlgebraError::NotSquare));
    let ragged = vec![vec![1.0, 2.0], vec![3.0]];
    assert_eq!(matrix_inverse(&ragged), Err(AlgebraError::NotSquare));
}

#[test]
fn inverse_singular() {
    let a = vec![vec![1.0, 2.0], vec![2.0, 4.0]];
    assert_eq!(matrix_inverse(&a), Err(AlgebraError::SingularMatrix));
}

#[test]
fn inverse_three_by_three() {
    let a = vec![vec![1.0, 2.0, 3.0], vec![0.0, 1.0, 4.0], vec![5.0, 6.0, 0.0]];
    let inv = matrix_inverse(&a).unwrap();
    let expected = vec![
        vec![-24.0, 18.0, 5.0],
        vec![20.0, -15.0, -4.0],
        vec![-5.0, 4.0, 1.0],
    ];
    assert!(close(&inv, &expected));
}

#[test]
fn inverse_twice_gives_back_matrix() {
    let a = vec![vec![4.0, 7.0], vec![2.0, 6.0]];
    let back = matrix_inverse(&matrix_inverse(&a).unwrap()).unwrap();
    assert!(close(&back, &a));
    let b = vec![vec![2.0, 0.0, 1.0], vec![1.0, 3.0, 2.0], vec![1.0, 1.0, 2.0]];
    let back = matrix_inverse(&matrix_inverse(&b).unwrap()).unwrap();
    assert!(close(&back, &b));
}

#[test]
fn matrix_times_inverse_is_identity() {
    let a = vec![vec![4.0, 7.0], vec![2.0, 6.0]];
    let p = matrix_dot_prod(&a, &matrix_inverse(&a).unwrap()).unwrap();
    assert!(close(&p, &identity(2)));
    let b = vec![vec![1.0, 2.0, 3.0], vec![0.0, 1.0, 4.0], vec![5.0, 6.0, 0.0]];
    let p = matrix_dot_prod(&b, &matrix_inverse(&b).unwrap()).unwrap();
    assert!(close(&p, &identity(3)));
}

#[test]
fn matrix_by_vector_products() {
    let a = vec![vec![1.0, 2.0], vec![3.0, 4.0], vec![5.0, 6.0]];
    assert_eq!(matrix_by_vector(&a, vec![1.0, -1.0]), Ok(vec![-1.0, -1.0, -1.0]));
}

#[test]
fn matrix_by_vector_errors() {
    let a = vec![vec![1.0, 2.0], vec![3.0, 4.0]];
    assert_eq!(
        matrix_by_vector(&a, vec![1.0, 2.0, 3.0]),
        Err(AlgebraError::IncompatibleDimensions)
    );
    let empty: Vec<Vec<f64>> = Vec::new();
    assert_eq!(
        matrix_by_vector(&empty, vec![]),
        Err(AlgebraError::IncompatibleDimensions)
    );
    let ragged = vec![vec![1.0, 2.0], vec![3.0]];
    assert_eq!(
        matrix_by_vector(&ragged, vec![1.0, 2.0]),
        Err(AlgebraError::MalformedMatrix)
    );
}
