//! Minors: a matrix with one row and one column taken out.
use vstd::prelude::*;
use crate::shape::{is_square, rows_of};

verus! {

/// `m` without row `row` and without column `col`.
pub open spec fn minor_of<T>(m: Seq<Seq<T>>, row: int, col: int) -> Seq<Seq<T>> {
    m.remove(row).map_values(|r: Seq<T>| r.remove(col))
}

/// The minor of a square matrix is square, one smaller.
pub proof fn lemma_minor_square<T>(m: Seq<Seq<T>>, row: int, col: int)
    requires
        is_square(m),
        0 <= row < m.len(),
        0 <= col < m.len(),
    ensures
        minor_of(m, row, col).len() == m.len() - 1,
        is_square(minor_of(m, row, col)),
{
    let s = minor_of(m, row, col);
    assert forall|i: int| 0 <= i < s.len() implies #[trigger] s[i].len() == s.len() by {
        assert(m.remove(row)[i].len() == m.len());
    }
}

/// Builds the minor of a square matrix: `matrix` without row `row` and
/// column `col`.
pub fn minor<T: Copy>(matrix: &[Vec<T>], row: usize, col: usize) -> (r: Vec<Vec<T>>)
    requires
        is_square(rows_of(matrix@)),
        row < matrix@.len(),
        col < matrix@.len(),
    ensures
        rows_of(r@) == minor_of(rows_of(matrix@), row as int, col as int),
{
    let ghost m = rows_of(matrix@);
    let ghost s = minor_of(m, row as int, col as int);
    let n = matrix.len();
    let mut result: Vec<Vec<T>> = Vec::new();
    let mut k: usize = 0;
    while k < n
        invariant
            m == rows_of(matrix@),
            s == minor_of(m, row as int, col as int),
            is_square(m),
            n == m.len(),
            row < n,
            col < n,
            k <= n,
            result@.len() == if k <= row { k as int } else { k - 1 },
            forall|x: int| 0 <= x < result@.len() ==> #[trigger] result@[x]@ == s[x],
        decreases n - k,
    {
        if k != row {
            assert(m[k as int].len() == n);
            let mut line: Vec<T> = Vec::new();
            let mut l: usize = 0;
            while l < n
                invariant
                    m == rows_of(matrix@),
                    is_square(m),
                    n == m.len(),
                    k < n,
                    col < n,
                    l <= n,
                    line@ == (if l <= col {
                        m[k as int].take(l as int)
                    } else {
                        m[k as int].take(l as int).remove(col as int)
                    }),
                decreases n - l,
            {
                if l != col {
                    line.push(matrix[k][l]);
                }
                proof {
                    if l < col {
                        assert(line@ =~= m[k as int].take(l + 1));
                    } else if l > col {
                        assert(line@ =~= m[k as int].take(l + 1).remove(col as int));
                    } else {
                        assert(m[k as int].take(l + 1).remove(col as int) =~= m[k as int].take(
                            l as int,
                        ));
                    }
                }
                l += 1;
            }
            assert(m[k as int].take(n as int) =~= m[k as int]);
            let ghost x: int = result@.len() as int;
            assert(s[x] == m[k as int].remove(col as int));
            result.push(line);
        }
        k += 1;
    }
    assert(rows_of(result@) =~= s);
    result
}

} // verus!
