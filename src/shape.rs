//! The shape of a matrix, as a sequence of rows.
use vstd::prelude::*;
use crate::error::AlgebraError;

verus! {

/// The rows of a matrix, each as a sequence of cells.
pub open spec fn rows_of<T>(m: Seq<Vec<T>>) -> Seq<Seq<T>> {
    m.map_values(|r: Vec<T>| r@)
}

/// Number of columns: the length of the first row, or 0 without rows.
pub open spec fn num_cols<T>(m: Seq<Seq<T>>) -> nat {
    if m.len() == 0 {
        0
    } else {
        m[0].len()
    }
}

/// Every row has the length of the first one.
pub open spec fn is_rectangular<T>(m: Seq<Seq<T>>) -> bool {
    forall|i: int| 0 <= i < m.len() ==> #[trigger] m[i].len() == num_cols(m)
}

/// Every row is as long as there are rows.
pub open spec fn is_square<T>(m: Seq<Seq<T>>) -> bool {
    forall|i: int| 0 <= i < m.len() ==> #[trigger] m[i].len() == m.len()
}

/// Same number of rows, and row by row the same length.
pub open spec fn same_shape<T, U>(a: Seq<Seq<T>>, b: Seq<Seq<U>>) -> bool {
    &&& a.len() == b.len()
    &&& forall|i: int| 0 <= i < a.len() ==> #[trigger] a[i].len() == b[i].len()
}

/// Tells whether two matrices have the same shape.
pub fn check_same_shape<T>(a: &[Vec<T>], b: &[Vec<T>]) -> (r: Result<(), AlgebraError>)
    ensures
        r is Ok <==> same_shape(rows_of(a@), rows_of(b@)),
        r is Err ==> r == Err::<(), AlgebraError>(AlgebraError::DimensionMismatch),
{
    if a.len() != b.len() {
        return Err(AlgebraError::DimensionMismatch);
    }
    let mut i: usize = 0;
    while i < a.len()
        invariant
            a.len() == b.len(),
            i <= a.len(),
            forall|k: int| 0 <= k < i ==> #[trigger] a@[k]@.len() == b@[k]@.len(),
        decreases a.len() - i,
    {
        if a[i].len() != b[i].len() {
            assert(rows_of(a@)[i as int].len() != rows_of(b@)[i as int].len());
            return Err(AlgebraError::DimensionMismatch);
        }
        i += 1;
    }
    Ok(())
}

/// Tells whether all rows of a matrix have one length.
pub fn check_rectangular<T>(m: &[Vec<T>]) -> (r: bool)
    ensures
        r == is_rectangular(rows_of(m@)),
{
    let mut i: usize = 0;
    while i < m.len()
        invariant
            i <= m.len(),
            forall|k: int| 0 <= k < i ==> #[trigger] m@[k]@.len() == m@[0]@.len(),
        decreases m.len() - i,
    {
        if m[i].len() != m[0].len() {
            assert(rows_of(m@)[i as int].len() != num_cols(rows_of(m@)));
            return false;
        }
        i += 1;
    }
    true
}

/// Tells whether a matrix is square.
pub fn check_square<T>(m: &[Vec<T>]) -> (r: bool)
    ensures
        r == is_square(rows_of(m@)),
{
    let mut i: usize = 0;
    while i < m.len()
        invariant
            i <= m.len(),
            forall|k: int| 0 <= k < i ==> #[trigger] m@[k]@.len() == m@.len(),
        decreases m.len() - i,
    {
        if m[i].len() != m.len() {
            assert(rows_of(m@)[i as int].len() != rows_of(m@).len());
            return false;
        }
        i += 1;
    }
    true
}

} // verus!
