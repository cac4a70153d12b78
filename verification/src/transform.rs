//! The rectifier and its slope, on single scalars.

use crate::linalg::model::{non_negative, relu_deriv_spec, relu_spec};
use crate::scalar::{Ring, Scalar};
use vstd::prelude::*;

verus! {

/// `max(0, x)`.
pub fn relu<S: Scalar>(x: S) -> (r: S)
    ensures
        r == relu_spec(x),
{
    if x.positive() {
        x
    } else {
        S::zero()
    }
}

/// The slope of [`relu`] at `x`: one where `x` is positive, zero elsewhere.
pub fn relu_deriv<S: Scalar>(x: S) -> (r: S)
    ensures
        r == relu_deriv_spec(x),
{
    if x.positive() {
        S::one()
    } else {
        S::zero()
    }
}

/// The rectifier is never negative, and it leaves exactly the values that are
/// not negative as they are. Its slope is zero or one.
pub proof fn lemma_relu<S: Scalar>(x: S)
    ensures
        non_negative(relu_spec(x)),
        relu_spec(x) == x <==> non_negative(x),
        relu_deriv_spec(x) == S::zero_spec() || relu_deriv_spec(x) == S::one_spec(),
        x.positive_spec() ==> relu_deriv_spec(x) == S::one_spec(),
        !x.positive_spec() ==> relu_deriv_spec(x) == S::zero_spec(),
{
}

/// At zero the rectifier is zero and its slope is zero.
pub proof fn lemma_relu_at_zero<S: Ring>()
    ensures
        relu_spec(S::zero_spec()) == S::zero_spec(),
        relu_deriv_spec(S::zero_spec()) == S::zero_spec(),
{
    S::zero_not_positive();
}

} // verus!
