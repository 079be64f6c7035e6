//! Transposition.
use vstd::prelude::*;
use crate::shape::{is_rectangular, num_cols, rows_of};

verus! {

/// The transpose of a rectangular matrix: cell `(i, j)` of the result is cell
/// `(j, i)` of `m`. A matrix without rows or with empty rows transposes to one
/// without rows.
pub open spec fn transposed<T>(m: Seq<Seq<T>>) -> Seq<Seq<T>> {
    Seq::new(num_cols(m), |i: int| Seq::new(m.len(), |j: int| m[j][i]))
}

/// Swaps the roles of rows and columns of a rectangular matrix.
pub fn matrix_transpose<T: Copy>(mat1: &[Vec<T>]) -> (r: Vec<Vec<T>>)
    requires
        is_rectangular(rows_of(mat1@)),
    ensures
        rows_of(r@) == transposed(rows_of(mat1@)),
{
    let ghost m = rows_of(mat1@);
    let num_rows = mat1.len();
    let ncols: usize = if num_rows == 0 { 0 } else { mat1[0].len() };
    let mut result: Vec<Vec<T>> = Vec::new();
    let mut i: usize = 0;
    while i < ncols
        invariant
            m == rows_of(mat1@),
            is_rectangular(m),
            num_rows == m.len(),
            ncols == num_cols(m),
            i <= ncols,
            result@.len() == i,
            forall|k: int| 0 <= k < i ==> #[trigger] result@[k]@ == transposed(m)[k],
        decreases ncols - i,
    {
        let mut row: Vec<T> = Vec::new();
        let mut j: usize = 0;
        while j < num_rows
            invariant
                m == rows_of(mat1@),
                is_rectangular(m),
                num_rows == m.len(),
                ncols == num_cols(m),
                i < ncols,
                j <= num_rows,
                row@ == Seq::new(j as nat, |l: int| m[l][i as int]),
            decreases num_rows - j,
        {
            assert(m[j as int].len() == ncols);
            row.push(mat1[j][i]);
            j += 1;
        }
        assert(row@ =~= transposed(m)[i as int]);
        result.push(row);
        i += 1;
    }
    assert(rows_of(result@) =~= transposed(m));
    result
}

} // verus!
