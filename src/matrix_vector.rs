//! A matrix applied to a vector.
use vstd::prelude::*;
use crate::error::AlgebraError;
use crate::product::dot_ok;
use crate::shape::{check_rectangular, is_rectangular, num_cols, rows_of};
use crate::vectors::{dot, dot_exact, dot_of};

verus! {

/// The matrix-vector product: element `i` is the dot product of row `i` of
/// `m` and `v`.
pub open spec fn apply<
    T: core::ops::Add<Output = T> + core::ops::Mul<Output = T> + core::convert::From<i8>,
>(m: Seq<Seq<T>>, v: Seq<T>) -> Seq<T> {
    Seq::new(m.len(), |i: int| dot(m[i], v))
}

/// Multiplies a rectangular matrix by a vector with one element per column.
/// A matrix without rows, or whose first row's length differs from the
/// vector's, is refused as incompatible; a ragged one as malformed.
pub fn matrix_by_vector<
    T: Copy + core::ops::Add<Output = T> + core::ops::Mul<Output = T> + core::convert::From<i8>,
>(matrix: &[Vec<T>], vector: Vec<T>) -> (r: Result<Vec<T>, AlgebraError>)
    requires
        forall|i: int|
            0 <= i < matrix@.len() && (#[trigger] matrix@[i])@.len() == vector@.len() ==> dot_ok(
                matrix@[i]@,
                vector@,
                vector@.len(),
            ),
    ensures
        r is Err ==> r->Err_0 == AlgebraError::IncompatibleDimensions || r->Err_0
            == AlgebraError::MalformedMatrix,
        r == Err::<Vec<T>, AlgebraError>(AlgebraError::IncompatibleDimensions) <==> matrix@.len()
            == 0 || num_cols(rows_of(matrix@)) != vector@.len(),
        r == Err::<Vec<T>, AlgebraError>(AlgebraError::MalformedMatrix) <==> matrix@.len() > 0
            && num_cols(rows_of(matrix@)) == vector@.len() && !is_rectangular(rows_of(matrix@)),
        r is Ok ==> r->Ok_0@.len() == matrix@.len(),
        r is Ok && dot_exact::<T>() ==> r->Ok_0@ == apply(rows_of(matrix@), vector@),
{
    if matrix.len() == 0 || matrix[0].len() != vector.len() {
        return Err(AlgebraError::IncompatibleDimensions);
    }
    if !check_rectangular(matrix) {
        return Err(AlgebraError::MalformedMatrix);
    }
    let ghost m = rows_of(matrix@);
    let mut result: Vec<T> = Vec::new();
    let mut i: usize = 0;
    while i < matrix.len()
        invariant
            m == rows_of(matrix@),
            is_rectangular(m),
            m.len() > 0,
            num_cols(m) == vector@.len(),
            forall|k: int|
                0 <= k < matrix@.len() && (#[trigger] matrix@[k])@.len() == vector@.len()
                    ==> dot_ok(matrix@[k]@, vector@, vector@.len()),
            i <= m.len(),
            result@.len() == i,
            dot_exact::<T>() ==> result@ == apply(m, vector@).take(i as int),
        decreases m.len() - i,
    {
        assert(m[i as int].len() == vector@.len());
        let x = dot_of(&matrix[i], &vector);
        result.push(x);
        proof {
            if dot_exact::<T>() {
                assert(result@ =~= apply(m, vector@).take(i + 1));
            }
        }
        i += 1;
    }
    proof {
        if dot_exact::<T>() {
            assert(result@ =~= apply(m, vector@));
        }
    }
    Ok(result)
}

} // verus!
