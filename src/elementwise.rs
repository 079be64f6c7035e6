//! Cell-by-cell operations on matrices of one shape.
use vstd::prelude::*;
use vstd::std_specs::ops::{AddSpec, MulSpec, SubSpec};
use crate::error::AlgebraError;
use crate::scalar::{add_ok, mul_ok, sub_ok};
use crate::shape::{check_rectangular, check_same_shape, is_rectangular, rows_of, same_shape};

verus! {

/// Cell `(i, j)` is the sum of the cells `(i, j)` of `a` and `b`.
pub open spec fn sum_cells<T: core::ops::Add<Output = T>>(a: Seq<Seq<T>>, b: Seq<Seq<T>>) -> Seq<
    Seq<T>,
> {
    Seq::new(a.len(), |i: int| Seq::new(a[i].len(), |j: int| a[i][j].add_spec(b[i][j])))
}

/// Cell `(i, j)` is cell `(i, j)` of `a` minus that of `b`.
pub open spec fn diff_cells<T: core::ops::Sub<Output = T>>(a: Seq<Seq<T>>, b: Seq<Seq<T>>) -> Seq<
    Seq<T>,
> {
    Seq::new(a.len(), |i: int| Seq::new(a[i].len(), |j: int| a[i][j].sub_spec(b[i][j])))
}

/// Cell `(i, j)` is the product of the cells `(i, j)` of `a` and `b`.
pub open spec fn prod_cells<T: core::ops::Mul<Output = T>>(a: Seq<Seq<T>>, b: Seq<Seq<T>>) -> Seq<
    Seq<T>,
> {
    Seq::new(a.len(), |i: int| Seq::new(a[i].len(), |j: int| a[i][j].mul_spec(b[i][j])))
}

/// Cell `(i, j)` is cell `(i, j)` of `a` times `k`.
pub open spec fn scaled_cells<T: core::ops::Mul<Output = T>>(a: Seq<Seq<T>>, k: T) -> Seq<Seq<T>> {
    Seq::new(a.len(), |i: int| Seq::new(a[i].len(), |j: int| a[i][j].mul_spec(k)))
}

/// Every cell of `a` that has a counterpart in `b` can be added to it.
pub open spec fn cells_add_ok<T: core::ops::Add<Output = T>>(a: Seq<Seq<T>>, b: Seq<Seq<T>>) -> bool {
    forall|i: int, j: int|
        0 <= i < a.len() && i < b.len() && 0 <= j < a[i].len() && j < b[i].len() ==> add_ok(
            #[trigger] a[i][j],
            #[trigger] b[i][j],
        )
}

/// Every cell of `b` that has a counterpart in `a` can be subtracted from it.
pub open spec fn cells_sub_ok<T: core::ops::Sub<Output = T>>(a: Seq<Seq<T>>, b: Seq<Seq<T>>) -> bool {
    forall|i: int, j: int|
        0 <= i < a.len() && i < b.len() && 0 <= j < a[i].len() && j < b[i].len() ==> sub_ok(
            #[trigger] a[i][j],
            #[trigger] b[i][j],
        )
}

/// Every cell of `a` that has a counterpart in `b` can be multiplied by it.
pub open spec fn cells_mul_ok<T: core::ops::Mul<Output = T>>(a: Seq<Seq<T>>, b: Seq<Seq<T>>) -> bool {
    forall|i: int, j: int|
        0 <= i < a.len() && i < b.len() && 0 <= j < a[i].len() && j < b[i].len() ==> mul_ok(
            #[trigger] a[i][j],
            #[trigger] b[i][j],
        )
}

/// Elementwise sum of two matrices of one shape.
pub fn matrix_add<T: Copy + core::ops::Add<Output = T>>(mat1: &[Vec<T>], mat2: &[Vec<T>]) -> (r:
    Result<Vec<Vec<T>>, AlgebraError>)
    requires
        cells_add_ok(rows_of(mat1@), rows_of(mat2@)),
    ensures
        r is Err <==> !same_shape(rows_of(mat1@), rows_of(mat2@)),
        r is Err ==> r->Err_0 == AlgebraError::DimensionMismatch,
        r is Ok ==> same_shape(rows_of(r->Ok_0@), rows_of(mat1@)),
        r is Ok && T::obeys_add_spec() ==> rows_of(r->Ok_0@) == sum_cells(
            rows_of(mat1@),
            rows_of(mat2@),
        ),
{
    check_same_shape(mat1, mat2)?;
    let ghost a = rows_of(mat1@);
    let ghost b = rows_of(mat2@);
    let mut result: Vec<Vec<T>> = Vec::new();
    let mut i: usize = 0;
    while i < mat1.len()
        invariant
            a == rows_of(mat1@),
            b == rows_of(mat2@),
            same_shape(a, b),
            cells_add_ok(a, b),
            i <= a.len(),
            result@.len() == i,
            forall|k: int| 0 <= k < i ==> (#[trigger] result@[k]@).len() == a[k].len(),
            T::obeys_add_spec() ==> forall|k: int|
                0 <= k < i ==> #[trigger] result@[k]@ == sum_cells(a, b)[k],
        decreases a.len() - i,
    {
        let mut row: Vec<T> = Vec::new();
        let mut j: usize = 0;
        while j < mat1[i].len()
            invariant
                a == rows_of(mat1@),
                b == rows_of(mat2@),
                same_shape(a, b),
                cells_add_ok(a, b),
                i < a.len(),
                j <= a[i as int].len(),
                row@.len() == j,
                T::obeys_add_spec() ==> row@ == sum_cells(a, b)[i as int].take(j as int),
            decreases a[i as int].len() - j,
        {
            assert(add_ok(a[i as int][j as int], b[i as int][j as int]));
            let x = mat1[i][j] + mat2[i][j];
            row.push(x);
            proof {
                if T::obeys_add_spec() {
                    assert(row@ =~= sum_cells(a, b)[i as int].take(j + 1));
                }
            }
            j += 1;
        }
        proof {
            if T::obeys_add_spec() {
                assert(row@ =~= sum_cells(a, b)[i as int]);
            }
        }
        result.push(row);
        i += 1;
    }
    proof {
        if T::obeys_add_spec() {
            assert(rows_of(result@) =~= sum_cells(a, b));
        }
    }
    Ok(result)
}

/// Elementwise difference of two matrices of one shape.
pub fn matrix_sub<T: Copy + core::ops::Sub<Output = T>>(mat1: &[Vec<T>], mat2: &[Vec<T>]) -> (r:
    Result<Vec<Vec<T>>, AlgebraError>)
    requires
        cells_sub_ok(rows_of(mat1@), rows_of(mat2@)),
    ensures
        r is Err <==> !same_shape(rows_of(mat1@), rows_of(mat2@)),
        r is Err ==> r->Err_0 == AlgebraError::DimensionMismatch,
        r is Ok ==> same_shape(rows_of(r->Ok_0@), rows_of(mat1@)),
        r is Ok && T::obeys_sub_spec() ==> rows_of(r->Ok_0@) == diff_cells(
            rows_of(mat1@),
            rows_of(mat2@),
        ),
{
    check_same_shape(mat1, mat2)?;
    let ghost a = rows_of(mat1@);
    let ghost b = rows_of(mat2@);
    let mut result: Vec<Vec<T>> = Vec::new();
    let mut i: usize = 0;
    while i < mat1.len()
        invariant
            a == rows_of(mat1@),
            b == rows_of(mat2@),
            same_shape(a, b),
            cells_sub_ok(a, b),
            i <= a.len(),
            result@.len() == i,
            forall|k: int| 0 <= k < i ==> (#[trigger] result@[k]@).len() == a[k].len(),
            T::obeys_sub_spec() ==> forall|k: int|
                0 <= k < i ==> #[trigger] result@[k]@ == diff_cells(a, b)[k],
        decreases a.len() - i,
    {
        let mut row: Vec<T> = Vec::new();
        let mut j: usize = 0;
        while j < mat1[i].len()
            invariant
                a == rows_of(mat1@),
                b == rows_of(mat2@),
                same_shape(a, b),
                cells_sub_ok(a, b),
                i < a.len(),
                j <= a[i as int].len(),
                row@.len() == j,
                T::obeys_sub_spec() ==> row@ == diff_cells(a, b)[i as int].take(j as int),
            decreases a[i as int].len() - j,
        {
            assert(sub_ok(a[i as int][j as int], b[i as int][j as int]));
            let x = mat1[i][j] - mat2[i][j];
            row.push(x);
            proof {
                if T::obeys_sub_spec() {
                    assert(row@ =~= diff_cells(a, b)[i as int].take(j + 1));
                }
            }
            j += 1;
        }
        proof {
            if T::obeys_sub_spec() {
                assert(row@ =~= diff_cells(a, b)[i as int]);
            }
        }
        result.push(row);
        i += 1;
    }
    proof {
        if T::obeys_sub_spec() {
            assert(rows_of(result@) =~= diff_cells(a, b));
        }
    }
    Ok(result)
}

/// Elementwise (Hadamard) product of two matrices of one shape.
pub fn matrix_hadamard_prod<T: Copy + core::ops::Mul<Output = T>>(mat1: &[Vec<T>], mat2: &[Vec<T>]) -> (r:
    Result<Vec<Vec<T>>, AlgebraError>)
    requires
        cells_mul_ok(rows_of(mat1@), rows_of(mat2@)),
    ensures
        r is Err <==> !same_shape(rows_of(mat1@), rows_of(mat2@)),
        r is Err ==> r->Err_0 == AlgebraError::DimensionMismatch,
        r is Ok ==> same_shape(rows_of(r->Ok_0@), rows_of(mat1@)),
        r is Ok && T::obeys_mul_spec() ==> rows_of(r->Ok_0@) == prod_cells(
            rows_of(mat1@),
            rows_of(mat2@),
        ),
{
    check_same_shape(mat1, mat2)?;
    let ghost a = rows_of(mat1@);
    let ghost b = rows_of(mat2@);
    let mut result: Vec<Vec<T>> = Vec::new();
    let mut i: usize = 0;
    while i < mat1.len()
        invariant
            a == rows_of(mat1@),
            b == rows_of(mat2@),
            same_shape(a, b),
            cells_mul_ok(a, b),
            i <= a.len(),
            result@.len() == i,
            forall|k: int| 0 <= k < i ==> (#[trigger] result@[k]@).len() == a[k].len(),
            T::obeys_mul_spec() ==> forall|k: int|
                0 <= k < i ==> #[trigger] result@[k]@ == prod_cells(a, b)[k],
        decreases a.len() - i,
    {
        let mut row: Vec<T> = Vec::new();
        let mut j: usize = 0;
        while j < mat1[i].len()
            invariant
                a == rows_of(mat1@),
                b == rows_of(mat2@),
                same_shape(a, b),
                cells_mul_ok(a, b),
                i < a.len(),
                j <= a[i as int].len(),
                row@.len() == j,
                T::obeys_mul_spec() ==> row@ == prod_cells(a, b)[i as int].take(j as int),
            decreases a[i as int].len() - j,
        {
            assert(mul_ok(a[i as int][j as int], b[i as int][j as int]));
            let x = mat1[i][j] * mat2[i][j];
            row.push(x);
            proof {
                if T::obeys_mul_spec() {
                    assert(row@ =~= prod_cells(a, b)[i as int].take(j + 1));
                }
            }
            j += 1;
        }
        proof {
            if T::obeys_mul_spec() {
                assert(row@ =~= prod_cells(a, b)[i as int]);
            }
        }
        result.push(row);
        i += 1;
    }
    proof {
        if T::obeys_mul_spec() {
            assert(rows_of(result@) =~= prod_cells(a, b));
        }
    }
    Ok(result)
}

/// Every cell of `a` times `scalar` is defined.
pub open spec fn cells_scale_ok<T: core::ops::Mul<Output = T>>(a: Seq<Seq<T>>, scalar: T) -> bool {
    forall|i: int, j: int| 0 <= i < a.len() && 0 <= j < a[i].len() ==> mul_ok(#[trigger] a[i][j], scalar)
}

/// Multiplies every cell of a rectangular matrix by `scalar`. A matrix without
/// rows, or with rows of different lengths, is refused.
pub fn matrix_scalar<T: Copy + core::ops::Mul<Output = T>>(mat1: &[Vec<T>], scalar: T) -> (r: Result<
    Vec<Vec<T>>,
    AlgebraError,
>)
    requires
        cells_scale_ok(rows_of(mat1@), scalar),
    ensures
        r is Err <==> mat1@.len() == 0 || !is_rectangular(rows_of(mat1@)),
        r is Err ==> r->Err_0 == AlgebraError::MalformedMatrix,
        r is Ok ==> same_shape(rows_of(r->Ok_0@), rows_of(mat1@)),
        r is Ok && T::obeys_mul_spec() ==> rows_of(r->Ok_0@) == scaled_cells(rows_of(mat1@), scalar),
{
    if mat1.len() == 0 || !check_rectangular(mat1) {
        return Err(AlgebraError::MalformedMatrix);
    }
    let ghost a = rows_of(mat1@);
    let mut result: Vec<Vec<T>> = Vec::new();
    let mut i: usize = 0;
    while i < mat1.len()
        invariant
            a == rows_of(mat1@),
            cells_scale_ok(a, scalar),
            i <= a.len(),
            result@.len() == i,
            forall|k: int| 0 <= k < i ==> (#[trigger] result@[k]@).len() == a[k].len(),
            T::obeys_mul_spec() ==> forall|k: int|
                0 <= k < i ==> #[trigger] result@[k]@ == scaled_cells(a, scalar)[k],
        decreases a.len() - i,
    {
        let mut row: Vec<T> = Vec::new();
        let mut j: usize = 0;
        while j < mat1[i].len()
            invariant
                a == rows_of(mat1@),
                cells_scale_ok(a, scalar),
                i < a.len(),
                j <= a[i as int].len(),
                row@.len() == j,
                T::obeys_mul_spec() ==> row@ == scaled_cells(a, scalar)[i as int].take(j as int),
            decreases a[i as int].len() - j,
        {
            assert(mul_ok(a[i as int][j as int], scalar));
            let x = mat1[i][j] * scalar;
            row.push(x);
            proof {
                if T::obeys_mul_spec() {
                    assert(row@ =~= scaled_cells(a, scalar)[i as int].take(j + 1));
                }
            }
            j += 1;
        }
        proof {
            if T::obeys_mul_spec() {
                assert(row@ =~= scaled_cells(a, scalar)[i as int]);
            }
        }
        result.push(row);
        i += 1;
    }
    proof {
        if T::obeys_mul_spec() {
            assert(rows_of(result@) =~= scaled_cells(a, scalar));
        }
    }
    Ok(result)
}

} // verus!
