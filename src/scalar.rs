//! Conditions under which one arithmetic step on the scalar type is defined.
//!
//! The operators of a scalar type either follow their vstd specification
//! (`obeys_*_spec`, as the primitive integers do), in which case a step is
//! defined when its `*_req` holds of the exact operands, or they do not, in
//! which case the algorithms need them to be total, as floating-point
//! arithmetic is.
use vstd::prelude::*;
use vstd::std_specs::ops::{AddSpec, DivSpec, MulSpec, SubSpec};

verus! {

/// `x + y` is defined.
pub open spec fn add_ok<T: core::ops::Add<Output = T>>(x: T, y: T) -> bool {
    if T::obeys_add_spec() {
        x.add_req(y)
    } else {
        forall|p: T, q: T| #[trigger] p.add_req(q)
    }
}

/// `x - y` is defined.
pub open spec fn sub_ok<T: core::ops::Sub<Output = T>>(x: T, y: T) -> bool {
    if T::obeys_sub_spec() {
        x.sub_req(y)
    } else {
        forall|p: T, q: T| #[trigger] p.sub_req(q)
    }
}

/// `x * y` is defined.
pub open spec fn mul_ok<T: core::ops::Mul<Output = T>>(x: T, y: T) -> bool {
    if T::obeys_mul_spec() {
        x.mul_req(y)
    } else {
        forall|p: T, q: T| #[trigger] p.mul_req(q)
    }
}

/// `x / y` is defined.
pub open spec fn div_ok<T: core::ops::Div<Output = T>>(x: T, y: T) -> bool {
    if T::obeys_div_spec() {
        x.div_req(y)
    } else {
        forall|p: T, q: T| #[trigger] p.div_req(q)
    }
}

} // verus!
