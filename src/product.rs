//! Matrix product.
use vstd::prelude::*;
use vstd::std_specs::ops::{AddSpec, MulSpec};
use crate::error::AlgebraError;
use crate::shape::{check_rectangular, is_rectangular, num_cols, rows_of};

verus! {

/// Addition and multiplication both follow their vstd specification.
pub open spec fn ring_exact<T: core::ops::Add<Output = T> + core::ops::Mul<Output = T>>() -> bool {
    T::obeys_add_spec() && T::obeys_mul_spec()
}

/// Addition and multiplication are defined on every pair of operands.
pub open spec fn ring_total<T: core::ops::Add<Output = T> + core::ops::Mul<Output = T>>() -> bool {
    &&& forall|p: T, q: T| #[trigger] p.add_req(q)
    &&& forall|p: T, q: T| #[trigger] p.mul_req(q)
}

/// `x[0] * y[0] + x[1] * y[1] + ... + x[n - 1] * y[n - 1]`, summed from the
/// left, for `n >= 1`.
pub open spec fn dot_upto<T: core::ops::Add<Output = T> + core::ops::Mul<Output = T>>(
    x: Seq<T>,
    y: Seq<T>,
    n: nat,
) -> T
    decreases n,
{
    if n <= 1 {
        x[0].mul_spec(y[0])
    } else {
        dot_upto(x, y, (n - 1) as nat).add_spec(x[n - 1].mul_spec(y[n - 1]))
    }
}

/// Every step of `dot_upto(x, y, n)` is defined.
pub open spec fn dot_ok<T: core::ops::Add<Output = T> + core::ops::Mul<Output = T>>(
    x: Seq<T>,
    y: Seq<T>,
    n: nat,
) -> bool {
    if ring_exact::<T>() {
        forall|k: int|
            0 <= k < n ==> {
                &&& (#[trigger] x[k]).mul_req(y[k])
                &&& k >= 1 ==> dot_upto(x, y, k as nat).add_req(x[k].mul_spec(y[k]))
            }
    } else {
        ring_total::<T>()
    }
}

/// Column `j` of `m`.
pub open spec fn column<T>(m: Seq<Seq<T>>, j: int) -> Seq<T> {
    Seq::new(m.len(), |k: int| m[k][j])
}

/// The product `a * b`: cell `(i, j)` is the sum of products of row `i` of `a`
/// and column `j` of `b`.
pub open spec fn product<T: core::ops::Add<Output = T> + core::ops::Mul<Output = T>>(
    a: Seq<Seq<T>>,
    b: Seq<Seq<T>>,
) -> Seq<Seq<T>> {
    Seq::new(
        a.len(),
        |i: int| Seq::new(num_cols(b), |j: int| dot_upto(a[i], column(b, j), b.len())),
    )
}

/// Every step of `product(a, b)` is defined.
pub open spec fn product_ok<T: core::ops::Add<Output = T> + core::ops::Mul<Output = T>>(
    a: Seq<Seq<T>>,
    b: Seq<Seq<T>>,
) -> bool {
    forall|i: int, j: int|
        0 <= i < a.len() && 0 <= j < num_cols(b) ==> dot_ok(
            #[trigger] a[i],
            #[trigger] column(b, j),
            b.len(),
        )
}

/// The product of a row and a column, given as row `i` of `a` and column `j`
/// of `b`, over `n >= 1` terms.
fn row_times_column<T: Copy + core::ops::Add<Output = T> + core::ops::Mul<Output = T>>(
    x: &Vec<T>,
    b: &[Vec<T>],
    j: usize,
) -> (r: T)
    requires
        b@.len() >= 1,
        x@.len() == b@.len(),
        forall|k: int| 0 <= k < b@.len() ==> j < (#[trigger] b@[k])@.len(),
        dot_ok(x@, column(rows_of(b@), j as int), b@.len()),
    ensures
        ring_exact::<T>() ==> r == dot_upto(x@, column(rows_of(b@), j as int), b@.len()),
{
    let ghost y = column(rows_of(b@), j as int);
    let mut acc = x[0] * b[0][j];
    let mut k: usize = 1;
    while k < b.len()
        invariant
            y == column(rows_of(b@), j as int),
            1 <= k <= b@.len(),
            x@.len() == b@.len(),
            forall|l: int| 0 <= l < b@.len() ==> j < (#[trigger] b@[l])@.len(),
            dot_ok(x@, y, b@.len()),
            ring_exact::<T>() ==> acc == dot_upto(x@, y, k as nat),
        decreases b@.len() - k,
    {
        assert(y[k as int] == b@[k as int]@[j as int]);
        assert(x@[k as int].mul_req(y[k as int]) || ring_total::<T>());
        let p = x[k] * b[k][j];
        acc = acc + p;
        k += 1;
    }
    acc
}

/// Multiplies two rectangular matrices: the result has the rows of `mat1` and
/// the columns of `mat2`. Ragged operands are refused as malformed; operands
/// whose inner dimensions differ as incompatible.
pub fn matrix_dot_prod<T: Copy + core::ops::Add<Output = T> + core::ops::Mul<Output = T>>(
    mat1: &[Vec<T>],
    mat2: &[Vec<T>],
) -> (r: Result<Vec<Vec<T>>, AlgebraError>)
    requires
        product_ok(rows_of(mat1@), rows_of(mat2@)),
    ensures
        r is Err ==> r->Err_0 == AlgebraError::MalformedMatrix || r->Err_0
            == AlgebraError::IncompatibleDimensions,
        r == Err::<Vec<Vec<T>>, AlgebraError>(AlgebraError::MalformedMatrix) <==> !is_rectangular(
            rows_of(mat1@),
        ) || !is_rectangular(rows_of(mat2@)),
        r == Err::<Vec<Vec<T>>, AlgebraError>(AlgebraError::IncompatibleDimensions) <==> is_rectangular(
            rows_of(mat1@),
        ) && is_rectangular(rows_of(mat2@)) && num_cols(rows_of(mat1@)) != mat2@.len(),
        r is Ok ==> rows_of(r->Ok_0@).len() == mat1@.len() && forall|i: int|
            0 <= i < mat1@.len() ==> (#[trigger] rows_of(r->Ok_0@)[i]).len() == num_cols(
                rows_of(mat2@),
            ),
        r is Ok && ring_exact::<T>() ==> rows_of(r->Ok_0@) == product(
            rows_of(mat1@),
            rows_of(mat2@),
        ),
{
    if !check_rectangular(mat1) || !check_rectangular(mat2) {
        return Err(AlgebraError::MalformedMatrix);
    }
    let ghost a = rows_of(mat1@);
    let ghost b = rows_of(mat2@);
    let common: usize = if mat1.len() == 0 { 0 } else { mat1[0].len() };
    if common != mat2.len() {
        return Err(AlgebraError::IncompatibleDimensions);
    }
    let ncols: usize = if mat2.len() == 0 { 0 } else { mat2[0].len() };
    let mut result: Vec<Vec<T>> = Vec::new();
    let mut i: usize = 0;
    while i < mat1.len()
        invariant
            a == rows_of(mat1@),
            b == rows_of(mat2@),
            is_rectangular(a),
            is_rectangular(b),
            num_cols(a) == b.len(),
            ncols == num_cols(b),
            product_ok(a, b),
            i <= a.len(),
            result@.len() == i,
            forall|k: int| 0 <= k < i ==> (#[trigger] result@[k]@).len() == ncols,
            ring_exact::<T>() ==> forall|k: int|
                0 <= k < i ==> #[trigger] result@[k]@ == product(a, b)[k],
        decreases a.len() - i,
    {
        let mut row: Vec<T> = Vec::new();
        let mut j: usize = 0;
        while j < ncols
            invariant
                a == rows_of(mat1@),
                b == rows_of(mat2@),
                is_rectangular(a),
                is_rectangular(b),
                num_cols(a) == b.len(),
                ncols == num_cols(b),
                product_ok(a, b),
                i < a.len(),
                j <= ncols,
                row@.len() == j,
                ring_exact::<T>() ==> row@ == product(a, b)[i as int].take(j as int),
            decreases ncols - j,
        {
            assert(a[i as int] == mat1@[i as int]@);
            assert(dot_ok(a[i as int], column(b, j as int), b.len()));
            assert forall|k: int| 0 <= k < mat2@.len() implies j < (#[trigger] mat2@[k])@.len() by {
                assert(b[k].len() == ncols);
            }
            let x = row_times_column(&mat1[i], mat2, j);
            row.push(x);
            proof {
                if ring_exact::<T>() {
                    assert(row@ =~= product(a, b)[i as int].take(j + 1));
                }
            }
            j += 1;
        }
        proof {
            if ring_exact::<T>() {
                assert(row@ =~= product(a, b)[i as int]);
            }
        }
        result.push(row);
        i += 1;
    }
    proof {
        if ring_exact::<T>() {
            assert(rows_of(result@) =~= product(a, b));
        }
    }
    assert forall|k: int| 0 <= k < mat1@.len() implies (#[trigger] rows_of(result@)[k]).len()
        == num_cols(b) by {
        assert(rows_of(result@)[k] == result@[k]@);
    }
    Ok(result)
}

} // verus!
