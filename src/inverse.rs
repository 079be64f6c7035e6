//! Cofactor matrix, adjugate and inverse.
use vstd::prelude::*;
use vstd::std_specs::cmp::PartialEqSpec;
use vstd::std_specs::ops::{DivSpec, NegSpec};
use crate::determinant::{det, det_exact, det_ok, matrix_determinant, signed, zero};
use crate::error::AlgebraError;
use crate::minor::{lemma_minor_square, minor, minor_of};
use crate::shape::{check_square, is_rectangular, is_square, rows_of};
use crate::transpose::{matrix_transpose, transposed};

verus! {

/// The cofactor matrix: cell `(i, j)` is the determinant of the minor without
/// row `i` and column `j`, negated when `i + j` is odd.
pub open spec fn cofactors<
    T: core::ops::Add<Output = T> + core::ops::Sub<Output = T> + core::ops::Mul<Output = T>
        + core::ops::Neg<Output = T> + core::convert::From<i8>,
>(m: Seq<Seq<T>>) -> Seq<Seq<T>> {
    Seq::new(
        m.len(),
        |i: int| Seq::new(m.len(), |j: int| signed(det(minor_of(m, i, j)), i + j)),
    )
}

/// Every step of `cofactors(m)` is defined.
pub open spec fn cofactor_ok<
    T: core::ops::Add<Output = T> + core::ops::Sub<Output = T> + core::ops::Mul<Output = T>
        + core::ops::Neg<Output = T> + core::convert::From<i8>,
>(m: Seq<Seq<T>>) -> bool {
    forall|i: int, j: int|
        0 <= i < m.len() && 0 <= j < m.len() ==> {
            &&& det_ok(#[trigger] minor_of(m, i, j))
            &&& (det_exact::<T>() && (i + j) % 2 == 1 ==> det(minor_of(m, i, j)).neg_req())
            &&& (!det_exact::<T>() ==> forall|p: T| #[trigger] p.neg_req())
        }
}

/// The adjugate: the transpose of the cofactor matrix.
pub open spec fn adjugate<
    T: core::ops::Add<Output = T> + core::ops::Sub<Output = T> + core::ops::Mul<Output = T>
        + core::ops::Neg<Output = T> + core::convert::From<i8>,
>(m: Seq<Seq<T>>) -> Seq<Seq<T>> {
    transposed(cofactors(m))
}

/// Every operator of the inverse, the comparison with zero included, follows
/// its vstd specification.
pub open spec fn inverse_exact<
    T: core::ops::Add<Output = T> + core::ops::Sub<Output = T> + core::ops::Mul<Output = T>
        + core::ops::Neg<Output = T> + core::ops::Div<Output = T> + core::convert::From<i8>
        + core::cmp::PartialEq,
>() -> bool {
    &&& det_exact::<T>()
    &&& T::obeys_div_spec()
    &&& T::obeys_eq_spec()
}

/// The determinant of `m` compares equal to zero.
pub open spec fn is_singular<
    T: core::ops::Add<Output = T> + core::ops::Sub<Output = T> + core::ops::Mul<Output = T>
        + core::ops::Neg<Output = T> + core::convert::From<i8> + core::cmp::PartialEq,
>(m: Seq<Seq<T>>) -> bool {
    det(m).eq_spec(&zero())
}

/// The inverse: every cell of the adjugate divided by the determinant.
pub open spec fn inverse_of<
    T: core::ops::Add<Output = T> + core::ops::Sub<Output = T> + core::ops::Mul<Output = T>
        + core::ops::Neg<Output = T> + core::ops::Div<Output = T> + core::convert::From<i8>,
>(m: Seq<Seq<T>>) -> Seq<Seq<T>> {
    Seq::new(
        m.len(),
        |i: int| Seq::new(m.len(), |j: int| adjugate(m)[i][j].div_spec(det(m))),
    )
}

/// Every step of the inverse of a square `m` is defined: the determinant, the
/// cofactors, and the divisions, which only a non-singular matrix reaches.
pub open spec fn inverse_ok<
    T: core::ops::Add<Output = T> + core::ops::Sub<Output = T> + core::ops::Mul<Output = T>
        + core::ops::Neg<Output = T> + core::ops::Div<Output = T> + core::convert::From<i8>
        + core::cmp::PartialEq,
>(m: Seq<Seq<T>>) -> bool {
    &&& det_ok(m)
    &&& cofactor_ok(m)
    &&& if inverse_exact::<T>() {
        !is_singular(m) ==> forall|i: int, j: int|
            0 <= i < m.len() && 0 <= j < m.len() ==> (#[trigger] adjugate(m)[i][j]).div_req(
                det(m),
            )
    } else {
        forall|p: T, q: T| #[trigger] p.div_req(q)
    }
}

/// The cofactor matrix of a square matrix.
pub fn matrix_cofactor<
    T: Copy + core::ops::Add<Output = T> + core::ops::Sub<Output = T> + core::ops::Mul<Output = T>
        + core::ops::Neg<Output = T> + core::convert::From<i8>,
>(matrix: &[Vec<T>]) -> (r: Vec<Vec<T>>)
    requires
        is_square(rows_of(matrix@)),
        cofactor_ok(rows_of(matrix@)),
    ensures
        r@.len() == matrix@.len(),
        is_square(rows_of(r@)),
        det_exact::<T>() ==> rows_of(r@) == cofactors(rows_of(matrix@)),
{
    let ghost m = rows_of(matrix@);
    let n = matrix.len();
    let mut result: Vec<Vec<T>> = Vec::new();
    let mut i: usize = 0;
    while i < n
        invariant
            m == rows_of(matrix@),
            is_square(m),
            cofactor_ok(m),
            n == m.len(),
            i <= n,
            result@.len() == i,
            forall|k: int| 0 <= k < i ==> (#[trigger] result@[k]@).len() == n,
            det_exact::<T>() ==> forall|k: int|
                0 <= k < i ==> #[trigger] result@[k]@ == cofactors(m)[k],
        decreases n - i,
    {
        let mut row: Vec<T> = Vec::new();
        let mut j: usize = 0;
        while j < n
            invariant
                m == rows_of(matrix@),
                is_square(m),
                cofactor_ok(m),
                n == m.len(),
                i < n,
                j <= n,
                row@.len() == j,
                det_exact::<T>() ==> row@ == cofactors(m)[i as int].take(j as int),
            decreases n - j,
        {
            proof {
                lemma_minor_square(m, i as int, j as int);
            }
            assert(det_ok(minor_of(m, i as int, j as int)));
            let sub = minor(matrix, i, j);
            let d = matrix_determinant(sub.as_slice());
            let c = if i % 2 == j % 2 {
                d
            } else {
                d.neg()
            };
            row.push(c);
            proof {
                if det_exact::<T>() {
                    assert(row@ =~= cofactors(m)[i as int].take(j + 1));
                }
            }
            j += 1;
        }
        proof {
            if det_exact::<T>() {
                assert(row@ =~= cofactors(m)[i as int]);
            }
        }
        result.push(row);
        i += 1;
    }
    proof {
        if det_exact::<T>() {
            assert(rows_of(result@) =~= cofactors(m));
        }
        assert forall|k: int| 0 <= k < result@.len() implies #[trigger] rows_of(result@)[k].len()
            == rows_of(result@).len() by {
            assert(rows_of(result@)[k] == result@[k]@);
        }
    }
    result
}

/// The adjugate of a square matrix, the transpose of its cofactor matrix.
/// A matrix with a row whose length differs from the row count is refused.
pub fn matrix_adjugate<
    T: Copy + core::ops::Add<Output = T> + core::ops::Sub<Output = T> + core::ops::Mul<Output = T>
        + core::ops::Neg<Output = T> + core::convert::From<i8>,
>(matrix: &[Vec<T>]) -> (r: Result<Vec<Vec<T>>, AlgebraError>)
    requires
        is_square(rows_of(matrix@)) ==> cofactor_ok(rows_of(matrix@)),
    ensures
        r is Err <==> !is_square(rows_of(matrix@)),
        r is Err ==> r->Err_0 == AlgebraError::NotSquare,
        r is Ok ==> r->Ok_0@.len() == matrix@.len() && is_square(rows_of(r->Ok_0@)),
        r is Ok && det_exact::<T>() ==> rows_of(r->Ok_0@) == adjugate(rows_of(matrix@)),
{
    if !check_square(matrix) {
        return Err(AlgebraError::NotSquare);
    }
    let cof = matrix_cofactor(matrix);
    let ghost c = rows_of(cof@);
    assert(is_rectangular(c)) by {
        if c.len() > 0 {
            assert(c[0].len() == c.len());
        }
    }
    let adj = matrix_transpose(cof.as_slice());
    proof {
        let t = rows_of(adj@);
        assert(t == transposed(c));
        assert forall|k: int| 0 <= k < t.len() implies #[trigger] t[k].len() == t.len() by {
            assert(c[0].len() == c.len());
        }
    }
    Ok(adj)
}

/// The inverse of a square matrix: its adjugate divided cell by cell by its
/// determinant. A non-square matrix is refused, and so is one whose
/// determinant compares equal to zero.
pub fn matrix_inverse<
    T: Copy + core::ops::Add<Output = T> + core::ops::Sub<Output = T> + core::ops::Mul<Output = T>
        + core::ops::Neg<Output = T> + core::ops::Div<Output = T> + core::convert::From<i8>
        + core::cmp::PartialEq,
>(matrix: &[Vec<T>]) -> (r: Result<Vec<Vec<T>>, AlgebraError>)
    requires
        is_square(rows_of(matrix@)) ==> inverse_ok(rows_of(matrix@)),
    ensures
        r == Err::<Vec<Vec<T>>, AlgebraError>(AlgebraError::NotSquare) <==> !is_square(
            rows_of(matrix@),
        ),
        r is Err ==> r->Err_0 == AlgebraError::NotSquare || r->Err_0
            == AlgebraError::SingularMatrix,
        inverse_exact::<T>() ==> (r == Err::<Vec<Vec<T>>, AlgebraError>(
            AlgebraError::SingularMatrix,
        ) <==> is_square(rows_of(matrix@)) && is_singular(rows_of(matrix@))),
        r is Ok ==> r->Ok_0@.len() == matrix@.len() && is_square(rows_of(r->Ok_0@)),
        r is Ok && inverse_exact::<T>() ==> rows_of(r->Ok_0@) == inverse_of(rows_of(matrix@)),
{
    if !check_square(matrix) {
        return Err(AlgebraError::NotSquare);
    }
    let ghost m = rows_of(matrix@);
    let d = matrix_determinant(matrix);
    let z = T::from(0i8);
    if d.eq(&z) {
        return Err(AlgebraError::SingularMatrix);
    }
    let adj = match matrix_adjugate(matrix) {
        Ok(a) => a,
        Err(e) => {
            return Err(e);
        },
    };
    let ghost a = rows_of(adj@);
    let n = adj.len();
    let mut result: Vec<Vec<T>> = Vec::new();
    let mut i: usize = 0;
    while i < n
        invariant
            m == rows_of(matrix@),
            a == rows_of(adj@),
            is_square(m),
            is_square(a),
            inverse_ok(m),
            n == m.len(),
            n == a.len(),
            det_exact::<T>() ==> a == adjugate(m),
            inverse_exact::<T>() ==> d == det(m) && !is_singular(m),
            i <= n,
            result@.len() == i,
            forall|k: int| 0 <= k < i ==> (#[trigger] result@[k]@).len() == n,
            inverse_exact::<T>() ==> forall|k: int|
                0 <= k < i ==> #[trigger] result@[k]@ == inverse_of(m)[k],
        decreases n - i,
    {
        assert(a[i as int].len() == n);
        let mut row: Vec<T> = Vec::new();
        let mut j: usize = 0;
        while j < n
            invariant
                m == rows_of(matrix@),
                a == rows_of(adj@),
                is_square(m),
                is_square(a),
                inverse_ok(m),
                n == m.len(),
                n == a.len(),
                a[i as int].len() == n,
                det_exact::<T>() ==> a == adjugate(m),
                inverse_exact::<T>() ==> d == det(m) && !is_singular(m),
                i < n,
                j <= n,
                row@.len() == j,
                inverse_exact::<T>() ==> row@ == inverse_of(m)[i as int].take(j as int),
            decreases n - j,
        {
            proof {
                if inverse_exact::<T>() {
                    assert(adjugate(m)[i as int][j as int].div_req(det(m)));
                }
            }
            let x = adj[i][j] / d;
            row.push(x);
            proof {
                if inverse_exact::<T>() {
                    assert(row@ =~= inverse_of(m)[i as int].take(j + 1));
                }
            }
            j += 1;
        }
        proof {
            if inverse_exact::<T>() {
                assert(row@ =~= inverse_of(m)[i as int]);
            }
        }
        result.push(row);
        i += 1;
    }
    proof {
        if inverse_exact::<T>() {
            assert(rows_of(result@) =~= inverse_of(m));
        }
        assert forall|k: int| 0 <= k < result@.len() implies #[trigger] rows_of(result@)[k].len()
            == rows_of(result@).len() by {
            assert(rows_of(result@)[k] == result@[k]@);
        }
    }
    Ok(result)
}

} // verus!
