//! Determinant by cofactor (Laplace) expansion along the first row.
//!
//! The expansion takes time in the order of `n!` for an `n x n` matrix and
//! recursion depth `n`; an LU decomposition would be faster for large `n`, at
//! the price of pivoting decisions this library leaves out.
use vstd::prelude::*;
use vstd::std_specs::convert::FromSpec;
use vstd::std_specs::ops::{AddSpec, MulSpec, NegSpec, SubSpec};
use crate::minor::{lemma_minor_square, minor, minor_of};
use crate::shape::{is_square, rows_of};

verus! {

/// The operators that the determinant uses, and the conversion that gives
/// its zero, all follow their vstd specification.
pub open spec fn det_exact<
    T: core::ops::Add<Output = T> + core::ops::Sub<Output = T> + core::ops::Mul<Output = T>
        + core::ops::Neg<Output = T> + core::convert::From<i8>,
>() -> bool {
    &&& T::obeys_add_spec()
    &&& T::obeys_sub_spec()
    &&& T::obeys_mul_spec()
    &&& T::obeys_neg_spec()
    &&& <T as FromSpec<i8>>::obeys_from_spec()
}

/// The operators that the determinant uses are defined on all operands.
pub open spec fn det_total<
    T: core::ops::Add<Output = T> + core::ops::Sub<Output = T> + core::ops::Mul<Output = T>
        + core::ops::Neg<Output = T> + core::convert::From<i8>,
>() -> bool {
    &&& forall|p: T, q: T| #[trigger] p.add_req(q)
    &&& forall|p: T, q: T| #[trigger] p.sub_req(q)
    &&& forall|p: T, q: T| #[trigger] p.mul_req(q)
    &&& forall|p: T| #[trigger] p.neg_req()
}

/// The zero of the scalar type, as converted from `0i8`.
pub open spec fn zero<T: core::convert::From<i8>>() -> T {
    T::from_spec(0i8)
}

/// The one of the scalar type, as converted from `1i8`.
pub open spec fn one<T: core::convert::From<i8>>() -> T {
    T::from_spec(1i8)
}

/// `x` with the sign of position `i`: unchanged for even `i`, negated for odd.
pub open spec fn signed<T: core::ops::Neg<Output = T>>(x: T, i: int) -> T {
    if i % 2 == 0 {
        x
    } else {
        x.neg_spec()
    }
}

/// The determinant of a square matrix: one (the empty product) for `0 x 0`,
/// so that a `1 x 1` matrix has the cofactor one, the cell for
/// `1 x 1`, `a*d - b*c` for `2 x 2`, and otherwise the expansion along the
/// first row.
pub open spec fn det<
    T: core::ops::Add<Output = T> + core::ops::Sub<Output = T> + core::ops::Mul<Output = T>
        + core::ops::Neg<Output = T> + core::convert::From<i8>,
>(m: Seq<Seq<T>>) -> T
    decreases m.len(), 1nat, 0nat,
{
    if m.len() == 0 {
        one()
    } else if m.len() == 1 {
        m[0][0]
    } else if m.len() == 2 {
        m[0][0].mul_spec(m[1][1]).sub_spec(m[0][1].mul_spec(m[1][0]))
    } else {
        expansion(m, m.len())
    }
}

/// The sum, from the left, of the first `k >= 1` terms of the expansion of
/// `m` along its first row; term `i` is `signed(m[0][i], i) * det(minor)`.
pub open spec fn expansion<
    T: core::ops::Add<Output = T> + core::ops::Sub<Output = T> + core::ops::Mul<Output = T>
        + core::ops::Neg<Output = T> + core::convert::From<i8>,
>(m: Seq<Seq<T>>, k: nat) -> T
    decreases m.len(), 0nat, k,
{
    if m.len() == 0 || k == 0 {
        zero()
    } else if k == 1 {
        signed(m[0][0], 0).mul_spec(det(minor_of(m, 0, 0)))
    } else {
        expansion(m, (k - 1) as nat).add_spec(
            signed(m[0][k - 1], k - 1).mul_spec(det(minor_of(m, 0, k - 1))),
        )
    }
}

/// Every step of `det(m)` stays where its operators are defined.
pub open spec fn det_steps_ok<
    T: core::ops::Add<Output = T> + core::ops::Sub<Output = T> + core::ops::Mul<Output = T>
        + core::ops::Neg<Output = T> + core::convert::From<i8>,
>(m: Seq<Seq<T>>) -> bool
    decreases m.len(), 1nat, 0nat,
{
    if m.len() <= 1 {
        true
    } else if m.len() == 2 {
        &&& m[0][0].mul_req(m[1][1])
        &&& m[0][1].mul_req(m[1][0])
        &&& m[0][0].mul_spec(m[1][1]).sub_req(m[0][1].mul_spec(m[1][0]))
    } else {
        expansion_steps_ok(m, m.len())
    }
}

/// Every step of `expansion(m, k)` stays where its operators are defined.
pub open spec fn expansion_steps_ok<
    T: core::ops::Add<Output = T> + core::ops::Sub<Output = T> + core::ops::Mul<Output = T>
        + core::ops::Neg<Output = T> + core::convert::From<i8>,
>(m: Seq<Seq<T>>, k: nat) -> bool
    decreases m.len(), 0nat, k,
{
    if m.len() == 0 || k == 0 {
        true
    } else {
        &&& k > 1 ==> expansion_steps_ok(m, (k - 1) as nat)
        &&& det_steps_ok(minor_of(m, 0, k - 1))
        &&& (k - 1) % 2 == 1 ==> m[0][k - 1].neg_req()
        &&& signed(m[0][k - 1], k - 1).mul_req(det(minor_of(m, 0, k - 1)))
        &&& k > 1 ==> expansion(m, (k - 1) as nat).add_req(
            signed(m[0][k - 1], k - 1).mul_spec(det(minor_of(m, 0, k - 1))),
        )
    }
}

/// Every step of the determinant of `m` is defined: exactly computed
/// operators stay in their domain, or the operators are total.
pub open spec fn det_ok<
    T: core::ops::Add<Output = T> + core::ops::Sub<Output = T> + core::ops::Mul<Output = T>
        + core::ops::Neg<Output = T> + core::convert::From<i8>,
>(m: Seq<Seq<T>>) -> bool {
    if det_exact::<T>() {
        det_steps_ok(m)
    } else {
        det_total::<T>()
    }
}

/// `x` negated when `i` is odd.
fn apply_sign<T: Copy + core::ops::Neg<Output = T>>(x: T, i: usize) -> (r: T)
    requires
        i % 2 == 1 ==> x.neg_req(),
    ensures
        T::obeys_neg_spec() ==> r == signed(x, i as int),
{
    if i % 2 == 0 {
        x
    } else {
        x.neg()
    }
}

/// The determinant of a square matrix, by expansion along the first row.
/// A `0 x 0` matrix has determinant one.
pub fn matrix_determinant<
    T: Copy + core::ops::Add<Output = T> + core::ops::Sub<Output = T> + core::ops::Mul<Output = T>
        + core::ops::Neg<Output = T> + core::convert::From<i8>,
>(matrix: &[Vec<T>]) -> (r: T)
    requires
        is_square(rows_of(matrix@)),
        det_ok(rows_of(matrix@)),
    ensures
        det_exact::<T>() ==> r == det(rows_of(matrix@)),
    decreases matrix@.len(),
{
    let ghost m = rows_of(matrix@);
    let n = matrix.len();
    if n == 0 {
        return T::from(1i8);
    }
    assert(m[0].len() == n);
    if n == 1 {
        return matrix[0][0];
    }
    assert(m[1].len() == n);
    if n == 2 {
        let p = matrix[0][0] * matrix[1][1];
        let q = matrix[0][1] * matrix[1][0];
        return p - q;
    }
    let mut acc = matrix[0][0];
    let mut i: usize = 0;
    while i < n
        invariant
            m == rows_of(matrix@),
            is_square(m),
            det_ok(m),
            n == m.len(),
            n >= 3,
            i <= n,
            det_exact::<T>() && i >= 1 ==> acc == expansion(m, i as nat),
            det_exact::<T>() ==> expansion_steps_ok(m, n as nat),
        decreases n - i,
    {
        proof {
            lemma_minor_square(m, 0, i as int);
            if det_exact::<T>() {
                lemma_expansion_steps_prefix(m, n as nat, (i + 1) as nat);
            }
        }
        assert(m[0].len() == n);
        let sub = minor(matrix, 0, i);
        let d = matrix_determinant(sub.as_slice());
        let a = apply_sign(matrix[0][i], i);
        let t = a * d;
        if i == 0 {
            acc = t;
        } else {
            acc = acc + t;
        }
        i += 1;
    }
    acc
}

/// The steps of a longer expansion include those of a shorter one.
proof fn lemma_expansion_steps_prefix<
    T: core::ops::Add<Output = T> + core::ops::Sub<Output = T> + core::ops::Mul<Output = T>
        + core::ops::Neg<Output = T> + core::convert::From<i8>,
>(m: Seq<Seq<T>>, k: nat, j: nat)
    requires
        m.len() > 0,
        expansion_steps_ok(m, k),
        1 <= j <= k,
    ensures
        expansion_steps_ok(m, j),
    decreases k - j,
{
    if j < k {
        lemma_expansion_steps_prefix(m, (k - 1) as nat, j);
    }
}

} // verus!
