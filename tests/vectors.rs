use mlr::error::AlgebraError;
use mlr::vectors::{
    vec_add, vec_alg_prod, vec_by_scalar, vec_cross_prod, vec_div, vec_dot_prod,
    vec_exterior_prod, vec_mul, vec_sub, vec_tensor_prod, vec_wedge_prod,
};

#[test]
fn cross_of_unit_vectors() {
    assert_eq!(
        vec_cross_prod(vec![1.0, 0.0, 0.0], vec![0.0, 1.0, 0.0]),
        Ok(vec![0.0, 0.0, 1.0])
    );
}

#[test]
fn cross_of_two_dimensional_vectors() {
    assert_eq!(
        vec_cross_prod(vec![1.0, 0.0], vec![0.0, 1.0]),
        Err(AlgebraError::ArityViolation)
    );
}

#[test]
fn cross_general() {
    assert_eq!(
        vec_cross_prod(vec![1.0, 2.0, 3.0], vec![4.0, 5.0, 6.0]),
        Ok(vec![-3.0, 6.0, -3.0])
    );
}

#[test]
fn elementwise_vector_ops() {
    let a = vec![1.0, 2.0, 3.0];
    let b = vec![4.0, 5.0, 6.0];
    assert_eq!(vec_add(a.clone(), b.clone()), Ok(vec![5.0, 7.0, 9.0]));
    assert_eq!(vec_sub(a.clone(), b.clone()), Ok(vec![-3.0, -3.0, -3.0]));
    assert_eq!(vec_mul(a.clone(), b.clone()), Ok(vec![4.0, 10.0, 18.0]));
    assert_eq!(vec_div(b, vec![2.0, 5.0, 4.0]), Ok(vec![2.0, 1.0, 1.5]));
}

#[test]
fn elementwise_vector_mismatch() {
    let a = vec![1.0, 2.0];
    let b = vec![1.0, 2.0, 3.0];
    assert_eq!(vec_add(a.clone(), b.clone()), Err(AlgebraError::DimensionMismatch));
    assert_eq!(vec_sub(a.clone(), b.clone()), Err(AlgebraError::DimensionMismatch));
    assert_eq!(vec_mul(a.clone(), b.clone()), Err(AlgebraError::DimensionMismatch));
    assert_eq!(vec_div(a, b), Err(AlgebraError::DimensionMismatch));
}

#[test]
fn scalar_times_vector() {
    assert_eq!(vec_by_scalar(vec![1.0, -2.0, 0.5], 4.0), vec![4.0, -8.0, 2.0]);
    assert_eq!(vec_by_scalar(Vec::<f64>::new(), 4.0), Vec::<f64>::new());
}

#[test]
fn dot_products() {
    assert_eq!(vec_dot_prod(vec![1.0, 2.0, 3.0], vec![4.0, 5.0, 6.0]), Ok(32.0));
    assert_eq!(vec_dot_prod(Vec::<f64>::new(), Vec::new()), Ok(0.0));
    assert_eq!(
        vec_dot_prod(vec![1.0], vec![1.0, 2.0]),
        Err(AlgebraError::DimensionMismatch)
    );
    assert_eq!(vec_dot_prod(vec![2i64, 3], vec![4, -5]), Ok(-7));
}

#[test]
fn wedge_products() {
    assert_eq!(vec_wedge_prod(vec![1.0, 2.0], vec![3.0, 4.0]), Ok(-2.0));
    assert_eq!(
        vec_wedge_prod(vec![1.0, 2.0], vec![3.0]),
        Err(AlgebraError::DimensionMismatch)
    );
    assert_eq!(
        vec_wedge_prod(vec![1.0, 2.0, 3.0], vec![3.0, 4.0, 5.0]),
        Err(AlgebraError::ArityViolation)
    );
}

#[test]
fn algebraic_product() {
    assert_eq!(vec_alg_prod(vec![1.0, 2.0], vec![3.0, 4.0]), Ok(9.0));
    assert_eq!(
        vec_alg_prod(vec![1.0, 2.0], vec![3.0]),
        Err(AlgebraError::DimensionMismatch)
    );
    assert_eq!(
        vec_alg_prod(vec![1.0, 2.0, 3.0], vec![3.0, 4.0, 5.0]),
        Err(AlgebraError::ArityViolation)
    );
}

#[test]
fn tensor_product() {
    assert_eq!(
        vec_tensor_prod(vec![1.0, 2.0], vec![3.0, 4.0, 5.0]),
        Ok(vec![vec![3.0, 4.0, 5.0], vec![6.0, 8.0, 10.0]])
    );
    assert_eq!(
        vec_tensor_prod(Vec::new(), vec![1.0]),
        Err(AlgebraError::DimensionMismatch)
    );
    assert_eq!(
        vec_tensor_prod(vec![1.0], Vec::new()),
        Err(AlgebraError::DimensionMismatch)
    );
}

#[test]
fn exterior_product() {
    assert_eq!(
        vec_exterior_prod(vec![1.0, 2.0, 3.0], vec![4.0, 5.0, 6.0]),
        Ok(vec![
            vec![5.0, -8.0, 0.0],
            vec![6.0, 0.0, -12.0],
            vec![0.0, 12.0, -15.0],
        ])
    );
    assert_eq!(
        vec_exterior_prod(vec![1.0], vec![1.0, 2.0]),
        Err(AlgebraError::DimensionMismatch)
    );
    assert_eq!(vec_exterior_prod(vec![1.0], vec![2.0]), Ok(vec![]));
}
