//! Properties that relate the operations of the library.
use vstd::prelude::*;
use vstd::std_specs::ops::MulSpec;
use crate::determinant::{det, expansion, signed};
use crate::minor::minor_of;
use crate::shape::{is_rectangular, is_square, num_cols};
use crate::transpose::transposed;

verus! {

/// Transposing twice gives back the matrix, for every rectangular matrix
/// without rows or with at least one column.
pub proof fn lemma_transpose_involution<T>(m: Seq<Seq<T>>)
    requires
        is_rectangular(m),
        m.len() == 0 || num_cols(m) > 0,
    ensures
        transposed(transposed(m)) == m,
{
    let t = transposed(m);
    if m.len() > 0 {
        assert(t[0].len() == m.len());
    }
    assert forall|i: int| 0 <= i < m.len() implies #[trigger] transposed(t)[i] == m[i] by {
        assert(transposed(t)[i] =~= m[i]);
    }
    assert(transposed(t) =~= m);
}

/// With exact 64-bit integer arithmetic, the determinant of a square matrix
/// with a row of zeros is zero.
pub proof fn lemma_det_zero_row(m: Seq<Seq<i64>>, r: int)
    requires
        is_square(m),
        0 <= r < m.len(),
        forall|j: int| 0 <= j < m.len() ==> #[trigger] m[r][j] == 0,
    ensures
        det(m) == 0,
    decreases m.len(), 1nat, 0nat,
{
    if m.len() == 1 {
        assert(m[0][0] == 0);
    } else if m.len() == 2 {
        assert(m[r][0] == 0 && m[r][1] == 0);
        let (a, b, c, d) = (m[0][0] as int, m[1][1] as int, m[0][1] as int, m[1][0] as int);
        assert(a * b == 0 && c * d == 0) by (nonlinear_arith)
            requires
                (a == 0 && c == 0) || (b == 0 && d == 0),
        ;
    } else {
        lemma_expansion_zero_row(m, r, m.len());
    }
}

/// Every partial sum of the first-row expansion of a square matrix with a row
/// of zeros is zero, under exact 64-bit integer arithmetic.
proof fn lemma_expansion_zero_row(m: Seq<Seq<i64>>, r: int, k: nat)
    requires
        is_square(m),
        0 <= r < m.len(),
        m.len() >= 3,
        1 <= k <= m.len(),
        forall|j: int| 0 <= j < m.len() ==> #[trigger] m[r][j] == 0,
    ensures
        expansion(m, k) == 0,
    decreases m.len(), 0nat, k,
{
    let c = k - 1;
    let s = minor_of(m, 0, c);
    if r == 0 {
        assert(m[0][c] == 0);
        assert(signed(m[0][c], c) == 0);
    } else {
        crate::minor::lemma_minor_square(m, 0, c);
        assert forall|j: int| 0 <= j < s.len() implies #[trigger] s[r - 1][j] == 0 by {
            assert(s[r - 1] == m[r].remove(c));
        }
        lemma_det_zero_row(s, r - 1);
    }
    if k > 1 {
        lemma_expansion_zero_row(m, r, (k - 1) as nat);
    }
}

} // verus!
