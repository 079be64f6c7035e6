//! Vector algebra: elementwise operations and the dot, cross, wedge,
//! algebraic, tensor and exterior products.
use vstd::prelude::*;
use vstd::std_specs::convert::FromSpec;
use vstd::std_specs::ops::{AddSpec, DivSpec, MulSpec, NegSpec, SubSpec};
use crate::determinant::zero;
use crate::error::AlgebraError;
use crate::product::{dot_ok, dot_upto, ring_exact, ring_total};
use crate::scalar::{add_ok, div_ok, mul_ok, sub_ok};

verus! {

/// `x[i] + y[i]` for every position `i`.
pub open spec fn vec_sum<T: core::ops::Add<Output = T>>(x: Seq<T>, y: Seq<T>) -> Seq<T> {
    Seq::new(x.len(), |i: int| x[i].add_spec(y[i]))
}

/// Elementwise sum of two vectors of one length.
pub fn vec_add<T: Copy + core::ops::Add<Output = T>>(vec1: Vec<T>, vec2: Vec<T>) -> (r: Result<
    Vec<T>,
    AlgebraError,
>)
    requires
        forall|i: int| 0 <= i < vec1@.len() && i < vec2@.len() ==> add_ok(#[trigger] vec1@[i], vec2@[i]),
    ensures
        r is Err <==> vec1@.len() != vec2@.len(),
        r is Err ==> r->Err_0 == AlgebraError::DimensionMismatch,
        r is Ok ==> r->Ok_0@.len() == vec1@.len(),
        r is Ok && T::obeys_add_spec() ==> r->Ok_0@ == vec_sum(vec1@, vec2@),
{
    if vec1.len() != vec2.len() {
        return Err(AlgebraError::DimensionMismatch);
    }
    let mut result: Vec<T> = Vec::new();
    let mut i: usize = 0;
    while i < vec1.len()
        invariant
            vec1@.len() == vec2@.len(),
            forall|k: int| 0 <= k < vec1@.len() && k < vec2@.len() ==> add_ok(#[trigger] vec1@[k], vec2@[k]),
            i <= vec1@.len(),
            result@.len() == i,
            T::obeys_add_spec() ==> result@ == vec_sum(vec1@, vec2@).take(i as int),
        decreases vec1@.len() - i,
    {
        assert(add_ok(vec1@[i as int], vec2@[i as int]));
        let x = vec1[i] + vec2[i];
        result.push(x);
        proof {
            if T::obeys_add_spec() {
                assert(result@ =~= vec_sum(vec1@, vec2@).take(i + 1));
            }
        }
        i += 1;
    }
    proof {
        if T::obeys_add_spec() {
            assert(result@ =~= vec_sum(vec1@, vec2@));
        }
    }
    Ok(result)
}

/// `x[i] - y[i]` for every position `i`.
pub open spec fn vec_diff<T: core::ops::Sub<Output = T>>(x: Seq<T>, y: Seq<T>) -> Seq<T> {
    Seq::new(x.len(), |i: int| x[i].sub_spec(y[i]))
}

/// Elementwise difference of two vectors of one length.
pub fn vec_sub<T: Copy + core::ops::Sub<Output = T>>(vec1: Vec<T>, vec2: Vec<T>) -> (r: Result<
    Vec<T>,
    AlgebraError,
>)
    requires
        forall|i: int| 0 <= i < vec1@.len() && i < vec2@.len() ==> sub_ok(#[trigger] vec1@[i], vec2@[i]),
    ensures
        r is Err <==> vec1@.len() != vec2@.len(),
        r is Err ==> r->Err_0 == AlgebraError::DimensionMismatch,
        r is Ok ==> r->Ok_0@.len() == vec1@.len(),
        r is Ok && T::obeys_sub_spec() ==> r->Ok_0@ == vec_diff(vec1@, vec2@),
{
    if vec1.len() != vec2.len() {
        return Err(AlgebraError::DimensionMismatch);
    }
    let mut result: Vec<T> = Vec::new();
    let mut i: usize = 0;
    while i < vec1.len()
        invariant
            vec1@.len() == vec2@.len(),
            forall|k: int| 0 <= k < vec1@.len() && k < vec2@.len() ==> sub_ok(#[trigger] vec1@[k], vec2@[k]),
            i <= vec1@.len(),
            result@.len() == i,
            T::obeys_sub_spec() ==> result@ == vec_diff(vec1@, vec2@).take(i as int),
        decreases vec1@.len() - i,
    {
        assert(sub_ok(vec1@[i as int], vec2@[i as int]));
        let x = vec1[i] - vec2[i];
        result.push(x);
        proof {
            if T::obeys_sub_spec() {
                assert(result@ =~= vec_diff(vec1@, vec2@).take(i + 1));
            }
        }
        i += 1;
    }
    proof {
        if T::obeys_sub_spec() {
            assert(result@ =~= vec_diff(vec1@, vec2@));
        }
    }
    Ok(result)
}

/// `x[i] * y[i]` for every position `i`.
pub open spec fn vec_prod<T: core::ops::Mul<Output = T>>(x: Seq<T>, y: Seq<T>) -> Seq<T> {
    Seq::new(x.len(), |i: int| x[i].mul_spec(y[i]))
}

/// Elementwise product of two vectors of one length.
pub fn vec_mul<T: Copy + core::ops::Mul<Output = T>>(vec1: Vec<T>, vec2: Vec<T>) -> (r: Result<
    Vec<T>,
    AlgebraError,
>)
    requires
        forall|i: int| 0 <= i < vec1@.len() && i < vec2@.len() ==> mul_ok(#[trigger] vec1@[i], vec2@[i]),
    ensures
        r is Err <==> vec1@.len() != vec2@.len(),
        r is Err ==> r->Err_0 == AlgebraError::DimensionMismatch,
        r is Ok ==> r->Ok_0@.len() == vec1@.len(),
        r is Ok && T::obeys_mul_spec() ==> r->Ok_0@ == vec_prod(vec1@, vec2@),
{
    if vec1.len() != vec2.len() {
        return Err(AlgebraError::DimensionMismatch);
    }
    let mut result: Vec<T> = Vec::new();
    let mut i: usize = 0;
    while i < vec1.len()
        invariant
            vec1@.len() == vec2@.len(),
            forall|k: int| 0 <= k < vec1@.len() && k < vec2@.len() ==> mul_ok(#[trigger] vec1@[k], vec2@[k]),
            i <= vec1@.len(),
            result@.len() == i,
            T::obeys_mul_spec() ==> result@ == vec_prod(vec1@, vec2@).take(i as int),
        decreases vec1@.len() - i,
    {
        assert(mul_ok(vec1@[i as int], vec2@[i as int]));
        let x = vec1[i] * vec2[i];
        result.push(x);
        proof {
            if T::obeys_mul_spec() {
                assert(result@ =~= vec_prod(vec1@, vec2@).take(i + 1));
            }
        }
        i += 1;
    }
    proof {
        if T::obeys_mul_spec() {
            assert(result@ =~= vec_prod(vec1@, vec2@));
        }
    }
    Ok(result)
}

/// `x[i] / y[i]` for every position `i`.
pub open spec fn vec_quot<T: core::ops::Div<Output = T>>(x: Seq<T>, y: Seq<T>) -> Seq<T> {
    Seq::new(x.len(), |i: int| x[i].div_spec(y[i]))
}

/// Elementwise quotient of two vectors of one length.
pub fn vec_div<T: Copy + core::ops::Div<Output = T>>(vec1: Vec<T>, vec2: Vec<T>) -> (r: Result<
    Vec<T>,
    AlgebraError,
>)
    requires
        forall|i: int| 0 <= i < vec1@.len() && i < vec2@.len() ==> div_ok(#[trigger] vec1@[i], vec2@[i]),
    ensures
        r is Err <==> vec1@.len() != vec2@.len(),
        r is Err ==> r->Err_0 == AlgebraError::DimensionMismatch,
        r is Ok ==> r->Ok_0@.len() == vec1@.len(),
        r is Ok && T::obeys_div_spec() ==> r->Ok_0@ == vec_quot(vec1@, vec2@),
{
    if vec1.len() != vec2.len() {
        return Err(AlgebraError::DimensionMismatch);
    }
    let mut result: Vec<T> = Vec::new();
    let mut i: usize = 0;
    while i < vec1.len()
        invariant
            vec1@.len() == vec2@.len(),
            forall|k: int| 0 <= k < vec1@.len() && k < vec2@.len() ==> div_ok(#[trigger] vec1@[k], vec2@[k]),
            i <= vec1@.len(),
            result@.len() == i,
            T::obeys_div_spec() ==> result@ == vec_quot(vec1@, vec2@).take(i as int),
        decreases vec1@.len() - i,
    {
        assert(div_ok(vec1@[i as int], vec2@[i as int]));
        let x = vec1[i] / vec2[i];
        result.push(x);
        proof {
            if T::obeys_div_spec() {
                assert(result@ =~= vec_quot(vec1@, vec2@).take(i + 1));
            }
        }
        i += 1;
    }
    proof {
        if T::obeys_div_spec() {
            assert(result@ =~= vec_quot(vec1@, vec2@));
        }
    }
    Ok(result)
}

/// `x[i] * k` for every position `i`.
pub open spec fn vec_scaled<T: core::ops::Mul<Output = T>>(x: Seq<T>, k: T) -> Seq<T> {
    Seq::new(x.len(), |i: int| x[i].mul_spec(k))
}

/// Multiplies every element of a vector by `scalar`.
pub fn vec_by_scalar<T: Copy + core::ops::Mul<Output = T>>(vec: Vec<T>, scalar: T) -> (r: Vec<T>)
    requires
        forall|i: int| 0 <= i < vec@.len() ==> mul_ok(#[trigger] vec@[i], scalar),
    ensures
        r@.len() == vec@.len(),
        T::obeys_mul_spec() ==> r@ == vec_scaled(vec@, scalar),
{
    let mut result: Vec<T> = Vec::new();
    let mut i: usize = 0;
    while i < vec.len()
        invariant
            forall|k: int| 0 <= k < vec@.len() ==> mul_ok(#[trigger] vec@[k], scalar),
            i <= vec@.len(),
            result@.len() == i,
            T::obeys_mul_spec() ==> result@ == vec_scaled(vec@, scalar).take(i as int),
        decreases vec@.len() - i,
    {
        assert(mul_ok(vec@[i as int], scalar));
        let x = vec[i] * scalar;
        result.push(x);
        proof {
            if T::obeys_mul_spec() {
                assert(result@ =~= vec_scaled(vec@, scalar).take(i + 1));
            }
        }
        i += 1;
    }
    proof {
        if T::obeys_mul_spec() {
            assert(result@ =~= vec_scaled(vec@, scalar));
        }
    }
    result
}

/// Addition, multiplication and the conversion that gives zero follow their
/// vstd specification.
pub open spec fn dot_exact<
    T: core::ops::Add<Output = T> + core::ops::Mul<Output = T> + core::convert::From<i8>,
>() -> bool {
    ring_exact::<T>() && <T as FromSpec<i8>>::obeys_from_spec()
}

/// The dot product: zero for empty vectors, else the sum from the left of
/// the products of equal positions.
pub open spec fn dot<
    T: core::ops::Add<Output = T> + core::ops::Mul<Output = T> + core::convert::From<i8>,
>(x: Seq<T>, y: Seq<T>) -> T {
    if x.len() == 0 {
        zero()
    } else {
        dot_upto(x, y, x.len())
    }
}

/// The dot product of two vectors of one length.
pub(crate) fn dot_of<
    T: Copy + core::ops::Add<Output = T> + core::ops::Mul<Output = T> + core::convert::From<i8>,
>(x: &Vec<T>, y: &Vec<T>) -> (r: T)
    requires
        x@.len() == y@.len(),
        dot_ok(x@, y@, x@.len()),
    ensures
        dot_exact::<T>() ==> r == dot(x@, y@),
{
    if x.len() == 0 {
        return T::from(0i8);
    }
    let mut acc = x[0] * y[0];
    let mut k: usize = 1;
    while k < x.len()
        invariant
            1 <= k <= x@.len(),
            x@.len() == y@.len(),
            dot_ok(x@, y@, x@.len()),
            ring_exact::<T>() ==> acc == dot_upto(x@, y@, k as nat),
        decreases x@.len() - k,
    {
        assert(x@[k as int].mul_req(y@[k as int]) || ring_total::<T>());
        let p = x[k] * y[k];
        acc = acc + p;
        k += 1;
    }
    acc
}

/// Dot product of two vectors of one length.
pub fn vec_dot_prod<
    T: Copy + core::ops::Add<Output = T> + core::ops::Mul<Output = T> + core::convert::From<i8>,
>(vec1: Vec<T>, vec2: Vec<T>) -> (r: Result<T, AlgebraError>)
    requires
        vec1@.len() == vec2@.len() ==> dot_ok(vec1@, vec2@, vec1@.len()),
    ensures
        r is Err <==> vec1@.len() != vec2@.len(),
        r is Err ==> r->Err_0 == AlgebraError::DimensionMismatch,
        r is Ok && dot_exact::<T>() ==> r->Ok_0 == dot(vec1@, vec2@),
{
    if vec1.len() != vec2.len() {
        return Err(AlgebraError::DimensionMismatch);
    }
    Ok(dot_of(&vec1, &vec2))
}

/// Subtraction and multiplication follow their vstd specification.
pub open spec fn dp_exact<T: core::ops::Sub<Output = T> + core::ops::Mul<Output = T>>() -> bool {
    T::obeys_sub_spec() && T::obeys_mul_spec()
}

/// `a * b - c * d`.
pub open spec fn diff_of_products<T: core::ops::Sub<Output = T> + core::ops::Mul<Output = T>>(
    a: T,
    b: T,
    c: T,
    d: T,
) -> T {
    a.mul_spec(b).sub_spec(c.mul_spec(d))
}

/// Every step of `a * b - c * d` is defined.
pub open spec fn diff_of_products_ok<T: core::ops::Sub<Output = T> + core::ops::Mul<Output = T>>(
    a: T,
    b: T,
    c: T,
    d: T,
) -> bool {
    if dp_exact::<T>() {
        &&& a.mul_req(b)
        &&& c.mul_req(d)
        &&& a.mul_spec(b).sub_req(c.mul_spec(d))
    } else {
        &&& forall|p: T, q: T| #[trigger] p.sub_req(q)
        &&& forall|p: T, q: T| #[trigger] p.mul_req(q)
    }
}

/// Computes `a * b - c * d`.
fn diff_of_products_exec<T: Copy + core::ops::Sub<Output = T> + core::ops::Mul<Output = T>>(
    a: T,
    b: T,
    c: T,
    d: T,
) -> (r: T)
    requires
        diff_of_products_ok(a, b, c, d),
    ensures
        dp_exact::<T>() ==> r == diff_of_products(a, b, c, d),
{
    let p = a * b;
    let q = c * d;
    p - q
}

/// The cross product of two 3-vectors.
pub open spec fn cross<T: core::ops::Sub<Output = T> + core::ops::Mul<Output = T>>(
    x: Seq<T>,
    y: Seq<T>,
) -> Seq<T> {
    seq![
        diff_of_products(x[1], y[2], x[2], y[1]),
        diff_of_products(x[2], y[0], x[0], y[2]),
        diff_of_products(x[0], y[1], x[1], y[0]),
    ]
}

/// Every step of `cross(x, y)` is defined.
pub open spec fn cross_ok<T: core::ops::Sub<Output = T> + core::ops::Mul<Output = T>>(
    x: Seq<T>,
    y: Seq<T>,
) -> bool {
    &&& diff_of_products_ok(x[1], y[2], x[2], y[1])
    &&& diff_of_products_ok(x[2], y[0], x[0], y[2])
    &&& diff_of_products_ok(x[0], y[1], x[1], y[0])
}

/// Cross product of two 3-dimensional vectors; any other dimension is refused.
pub fn vec_cross_prod<T: Copy + core::ops::Sub<Output = T> + core::ops::Mul<Output = T>>(
    vec1: Vec<T>,
    vec2: Vec<T>,
) -> (r: Result<Vec<T>, AlgebraError>)
    requires
        vec1@.len() == 3 && vec2@.len() == 3 ==> cross_ok(vec1@, vec2@),
    ensures
        r is Err <==> vec1@.len() != 3 || vec2@.len() != 3,
        r is Err ==> r->Err_0 == AlgebraError::ArityViolation,
        r is Ok ==> r->Ok_0@.len() == 3,
        r is Ok && dp_exact::<T>() ==> r->Ok_0@ == cross(vec1@, vec2@),
{
    if vec1.len() != 3 || vec2.len() != 3 {
        return Err(AlgebraError::ArityViolation);
    }
    let c0 = diff_of_products_exec(vec1[1], vec2[2], vec1[2], vec2[1]);
    let c1 = diff_of_products_exec(vec1[2], vec2[0], vec1[0], vec2[2]);
    let c2 = diff_of_products_exec(vec1[0], vec2[1], vec1[1], vec2[0]);
    let result = vec![c0, c1, c2];
    proof {
        if dp_exact::<T>() {
            assert(result@ =~= cross(vec1@, vec2@));
        }
    }
    Ok(result)
}

/// The wedge product of two 2-vectors, `x[0] * y[1] - x[1] * y[0]`.
pub open spec fn wedge<T: core::ops::Sub<Output = T> + core::ops::Mul<Output = T>>(
    x: Seq<T>,
    y: Seq<T>,
) -> T {
    diff_of_products(x[0], y[1], x[1], y[0])
}

/// Wedge product of two 2-dimensional vectors. Vectors of different lengths
/// are refused as mismatched; of one length other than 2 as of wrong arity.
pub fn vec_wedge_prod<T: Copy + core::ops::Sub<Output = T> + core::ops::Mul<Output = T>>(
    vec1: Vec<T>,
    vec2: Vec<T>,
) -> (r: Result<T, AlgebraError>)
    requires
        vec1@.len() == 2 && vec2@.len() == 2 ==> diff_of_products_ok(
            vec1@[0],
            vec2@[1],
            vec1@[1],
            vec2@[0],
        ),
    ensures
        r is Err ==> r->Err_0 == AlgebraError::DimensionMismatch || r->Err_0
            == AlgebraError::ArityViolation,
        r == Err::<T, AlgebraError>(AlgebraError::DimensionMismatch) <==> vec1@.len()
            != vec2@.len(),
        r == Err::<T, AlgebraError>(AlgebraError::ArityViolation) <==> vec1@.len() == vec2@.len()
            && vec1@.len() != 2,
        r is Ok && dp_exact::<T>() ==> r->Ok_0 == wedge(vec1@, vec2@),
{
    if vec1.len() != vec2.len() {
        return Err(AlgebraError::DimensionMismatch);
    }
    if vec1.len() != 2 {
        return Err(AlgebraError::ArityViolation);
    }
    Ok(diff_of_products_exec(vec1[0], vec2[1], vec1[1], vec2[0]))
}

/// Addition, subtraction, multiplication and the conversion that gives zero
/// follow their vstd specification.
pub open spec fn alg_exact<
    T: core::ops::Add<Output = T> + core::ops::Sub<Output = T> + core::ops::Mul<Output = T>
        + core::convert::From<i8>,
>() -> bool {
    dot_exact::<T>() && T::obeys_sub_spec()
}

/// Every step of the algebraic (geometric) product of two 2-vectors is defined.
pub open spec fn alg_ok<
    T: core::ops::Add<Output = T> + core::ops::Sub<Output = T> + core::ops::Mul<Output = T>
        + core::convert::From<i8>,
>(x: Seq<T>, y: Seq<T>) -> bool {
    &&& dot_ok(x, y, x.len())
    &&& diff_of_products_ok(x[0], y[1], x[1], y[0])
    &&& if alg_exact::<T>() {
        dot(x, y).add_req(wedge(x, y))
    } else {
        forall|p: T, q: T| #[trigger] p.add_req(q)
    }
}

/// Algebraic (geometric) product of two 2-dimensional vectors: the sum of
/// their dot and wedge products. Vectors of different lengths are refused as
/// mismatched; of one length other than 2 as of wrong arity.
pub fn vec_alg_prod<
    T: Copy + core::ops::Add<Output = T> + core::ops::Sub<Output = T> + core::ops::Mul<Output = T>
        + core::convert::From<i8>,
>(vec1: Vec<T>, vec2: Vec<T>) -> (r: Result<T, AlgebraError>)
    requires
        vec1@.len() == 2 && vec2@.len() == 2 ==> alg_ok(vec1@, vec2@),
    ensures
        r is Err ==> r->Err_0 == AlgebraError::DimensionMismatch || r->Err_0
            == AlgebraError::ArityViolation,
        r == Err::<T, AlgebraError>(AlgebraError::DimensionMismatch) <==> vec1@.len()
            != vec2@.len(),
        r == Err::<T, AlgebraError>(AlgebraError::ArityViolation) <==> vec1@.len() == vec2@.len()
            && vec1@.len() != 2,
        r is Ok && alg_exact::<T>() ==> r->Ok_0 == dot(vec1@, vec2@).add_spec(wedge(vec1@, vec2@)),
{
    if vec1.len() != vec2.len() {
        return Err(AlgebraError::DimensionMismatch);
    }
    if vec1.len() != 2 {
        return Err(AlgebraError::ArityViolation);
    }
    let d = dot_of(&vec1, &vec2);
    let w = diff_of_products_exec(vec1[0], vec2[1], vec1[1], vec2[0]);
    Ok(d + w)
}

/// The tensor (outer) product: cell `(i, j)` is `x[i] * y[j]`.
pub open spec fn tensor<T: core::ops::Mul<Output = T>>(x: Seq<T>, y: Seq<T>) -> Seq<Seq<T>> {
    Seq::new(x.len(), |i: int| Seq::new(y.len(), |j: int| x[i].mul_spec(y[j])))
}

/// Tensor (outer) product of two non-empty vectors, as a matrix with a row for
/// each element of `vec1` and a column for each element of `vec2`.
pub fn vec_tensor_prod<T: Copy + core::ops::Mul<Output = T>>(vec1: Vec<T>, vec2: Vec<T>) -> (r:
    Result<Vec<Vec<T>>, AlgebraError>)
    requires
        forall|i: int, j: int|
            0 <= i < vec1@.len() && 0 <= j < vec2@.len() ==> mul_ok(
                #[trigger] vec1@[i],
                #[trigger] vec2@[j],
            ),
    ensures
        r is Err <==> vec1@.len() == 0 || vec2@.len() == 0,
        r is Err ==> r->Err_0 == AlgebraError::DimensionMismatch,
        r is Ok ==> r->Ok_0@.len() == vec1@.len() && forall|i: int|
            0 <= i < vec1@.len() ==> (#[trigger] r->Ok_0@[i])@.len() == vec2@.len(),
        r is Ok && T::obeys_mul_spec() ==> crate::shape::rows_of(r->Ok_0@) == tensor(
            vec1@,
            vec2@,
        ),
{
    if vec1.len() == 0 || vec2.len() == 0 {
        return Err(AlgebraError::DimensionMismatch);
    }
    let mut result: Vec<Vec<T>> = Vec::new();
    let mut i: usize = 0;
    while i < vec1.len()
        invariant
            forall|a: int, b: int|
                0 <= a < vec1@.len() && 0 <= b < vec2@.len() ==> mul_ok(
                    #[trigger] vec1@[a],
                    #[trigger] vec2@[b],
                ),
            i <= vec1@.len(),
            result@.len() == i,
            forall|k: int| 0 <= k < i ==> (#[trigger] result@[k])@.len() == vec2@.len(),
            T::obeys_mul_spec() ==> forall|k: int|
                0 <= k < i ==> #[trigger] result@[k]@ == tensor(vec1@, vec2@)[k],
        decreases vec1@.len() - i,
    {
        let mut row: Vec<T> = Vec::new();
        let mut j: usize = 0;
        while j < vec2.len()
            invariant
                forall|a: int, b: int|
                    0 <= a < vec1@.len() && 0 <= b < vec2@.len() ==> mul_ok(
                        #[trigger] vec1@[a],
                        #[trigger] vec2@[b],
                    ),
                i < vec1@.len(),
                j <= vec2@.len(),
                row@.len() == j,
                T::obeys_mul_spec() ==> row@ == tensor(vec1@, vec2@)[i as int].take(j as int),
            decreases vec2@.len() - j,
        {
            assert(mul_ok(vec1@[i as int], vec2@[j as int]));
            let x = vec1[i] * vec2[j];
            row.push(x);
            proof {
                if T::obeys_mul_spec() {
                    assert(row@ =~= tensor(vec1@, vec2@)[i as int].take(j + 1));
                }
            }
            j += 1;
        }
        proof {
            if T::obeys_mul_spec() {
                assert(row@ =~= tensor(vec1@, vec2@)[i as int]);
            }
        }
        result.push(row);
        i += 1;
    }
    proof {
        if T::obeys_mul_spec() {
            assert(crate::shape::rows_of(result@) =~= tensor(vec1@, vec2@));
        }
    }
    Ok(result)
}

/// Multiplication, negation and the conversion that gives zero follow their
/// vstd specification.
pub open spec fn ext_exact<
    T: core::ops::Mul<Output = T> + core::ops::Neg<Output = T> + core::convert::From<i8>,
>() -> bool {
    T::obeys_mul_spec() && T::obeys_neg_spec() && <T as FromSpec<i8>>::obeys_from_spec()
}

/// The bivector component for positions `i < j`: zero everywhere but
/// `x[i] * y[j]` at `i` and `(-x[j]) * y[i]` at `j`.
pub open spec fn bivector<
    T: core::ops::Mul<Output = T> + core::ops::Neg<Output = T> + core::convert::From<i8>,
>(x: Seq<T>, y: Seq<T>, i: int, j: int) -> Seq<T> {
    Seq::new(
        x.len(),
        |k: int|
            if k == i {
                x[i].mul_spec(y[j])
            } else if k == j {
                x[j].neg_spec().mul_spec(y[i])
            } else {
                zero()
            },
    )
}

/// The components for `i`: one bivector for each `j` with `i < j < n`.
pub open spec fn ext_block<
    T: core::ops::Mul<Output = T> + core::ops::Neg<Output = T> + core::convert::From<i8>,
>(x: Seq<T>, y: Seq<T>, i: int) -> Seq<Seq<T>> {
    Seq::new((x.len() - i - 1) as nat, |t: int| bivector(x, y, i, i + 1 + t))
}

/// The blocks for `0 <= i < k`, in order.
pub open spec fn ext_upto<
    T: core::ops::Mul<Output = T> + core::ops::Neg<Output = T> + core::convert::From<i8>,
>(x: Seq<T>, y: Seq<T>, k: nat) -> Seq<Seq<T>>
    decreases k,
{
    if k == 0 {
        seq![]
    } else {
        ext_upto(x, y, (k - 1) as nat) + ext_block(x, y, k - 1)
    }
}

/// The exterior product: every bivector component `i < j`, ordered by `i`,
/// then by `j`.
pub open spec fn exterior<
    T: core::ops::Mul<Output = T> + core::ops::Neg<Output = T> + core::convert::From<i8>,
>(x: Seq<T>, y: Seq<T>) -> Seq<Seq<T>> {
    ext_upto(x, y, x.len())
}

/// Every step of `exterior(x, y)` is defined.
pub open spec fn ext_ok<
    T: core::ops::Mul<Output = T> + core::ops::Neg<Output = T> + core::convert::From<i8>,
>(x: Seq<T>, y: Seq<T>) -> bool {
    if ext_exact::<T>() {
        forall|i: int, j: int|
            0 <= i < j < x.len() ==> {
                &&& (#[trigger] x[i]).mul_req(#[trigger] y[j])
                &&& x[j].neg_req()
                &&& x[j].neg_spec().mul_req(y[i])
            }
    } else {
        &&& forall|p: T, q: T| #[trigger] p.mul_req(q)
        &&& forall|p: T| #[trigger] p.neg_req()
    }
}

/// Exterior product of two vectors of one length: for each pair of positions
/// `i < j`, ordered by `i` then `j`, the bivector component with
/// `vec1[i] * vec2[j]` at `i`, `-vec1[j] * vec2[i]` at `j`, and zero elsewhere.
pub fn vec_exterior_prod<
    T: Copy + core::ops::Mul<Output = T> + core::ops::Neg<Output = T> + core::convert::From<i8>,
>(vec1: Vec<T>, vec2: Vec<T>) -> (r: Result<Vec<Vec<T>>, AlgebraError>)
    requires
        vec1@.len() == vec2@.len() ==> ext_ok(vec1@, vec2@),
    ensures
        r is Err <==> vec1@.len() != vec2@.len(),
        r is Err ==> r->Err_0 == AlgebraError::DimensionMismatch,
        r is Ok && ext_exact::<T>() ==> crate::shape::rows_of(r->Ok_0@) == exterior(vec1@, vec2@),
{
    if vec1.len() != vec2.len() {
        return Err(AlgebraError::DimensionMismatch);
    }
    let ghost x = vec1@;
    let ghost y = vec2@;
    let n = vec1.len();
    let z = T::from(0i8);
    let mut result: Vec<Vec<T>> = Vec::new();
    let mut i: usize = 0;
    while i < n
        invariant
            x == vec1@,
            y == vec2@,
            n == x.len(),
            n == y.len(),
            ext_ok(x, y),
            ext_exact::<T>() ==> z == zero::<T>(),
            i <= n,
            ext_exact::<T>() ==> crate::shape::rows_of(result@) == ext_upto(x, y, i as nat),
        decreases n - i,
    {
        let ghost before = crate::shape::rows_of(result@);
        let mut j: usize = i + 1;
        while j < n
            invariant
                x == vec1@,
                y == vec2@,
                n == x.len(),
                n == y.len(),
                ext_ok(x, y),
                ext_exact::<T>() ==> z == zero::<T>(),
                i < n,
                i + 1 <= j <= n,
                ext_exact::<T>() ==> crate::shape::rows_of(result@) == before + ext_block(
                    x,
                    y,
                    i as int,
                ).take(j - i - 1),
            decreases n - j,
        {
            let mut bv: Vec<T> = Vec::new();
            let mut k: usize = 0;
            while k < n
                invariant
                    x == vec1@,
                    y == vec2@,
                    n == x.len(),
                    n == y.len(),
                    ext_ok(x, y),
                    ext_exact::<T>() ==> z == zero::<T>(),
                    i < j < n,
                    k <= n,
                    bv@.len() == k,
                    ext_exact::<T>() ==> bv@ == bivector(x, y, i as int, j as int).take(k as int),
                decreases n - k,
            {
                let c = if k == i {
                    vec1[i] * vec2[j]
                } else if k == j {
                    vec1[j].neg() * vec2[i]
                } else {
                    z
                };
                bv.push(c);
                proof {
                    if ext_exact::<T>() {
                        assert(bv@ =~= bivector(x, y, i as int, j as int).take(k + 1));
                    }
                }
                k += 1;
            }
            proof {
                if ext_exact::<T>() {
                    assert(bv@ =~= bivector(x, y, i as int, j as int));
                }
            }
            let ghost prev = crate::shape::rows_of(result@);
            result.push(bv);
            proof {
                assert(crate::shape::rows_of(result@) =~= prev.push(bv@));
                if ext_exact::<T>() {
                    assert(ext_block(x, y, i as int).take(j - i) =~= ext_block(
                        x,
                        y,
                        i as int,
                    ).take(j - i - 1).push(bivector(x, y, i as int, j as int)));
                    assert(crate::shape::rows_of(result@) =~= before + ext_block(
                        x,
                        y,
                        i as int,
                    ).take(j - i));
                }
            }
            j += 1;
        }
        proof {
            if ext_exact::<T>() {
                assert(ext_block(x, y, i as int).take(n - i - 1) =~= ext_block(x, y, i as int));
            }
        }
        i += 1;
    }
    Ok(result)
}

} // verus!
