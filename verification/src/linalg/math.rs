//! Activations: pointwise nonlinearities with their derivatives.

use crate::linalg::matrix::Matrix;
use crate::linalg::model::{relu_deriv_spec, relu_spec, MatrixView};
use crate::scalar::Scalar;
use crate::transform::{relu, relu_deriv};
use vstd::prelude::*;

verus! {

/// The kinds of activation.
#[derive(Clone, Copy, Debug)]
pub enum Activation {
    /// The identity, with slope one everywhere.
    Linear,
    /// `max(0, x)`, with slope one where `x` is positive and zero elsewhere.
    ReLU,
}

/// An activation, applied to matrices entry by entry.
#[derive(Clone, Copy, Debug)]
pub struct ActivationFunction {
    activation: Activation,
}

impl ActivationFunction {
    /// The kind of the activation.
    pub closed spec fn kind(&self) -> Activation {
        self.activation
    }

    /// The image of `input` under the activation.
    pub open spec fn forward_spec<S: Scalar>(&self, input: MatrixView<S>) -> MatrixView<S> {
        match self.kind() {
            Activation::Linear => input,
            Activation::ReLU => input.relu(),
        }
    }

    /// The slope of the activation at each entry of `input`.
    pub open spec fn backward_spec<S: Scalar>(&self, input: MatrixView<S>) -> MatrixView<S> {
        match self.kind() {
            Activation::Linear => MatrixView::ones(input.rows, input.cols),
            Activation::ReLU => input.relu_deriv(),
        }
    }

    /// The activation of the given kind.
    pub fn new(activation: Activation) -> (r: Self)
        ensures
            r.kind() == activation,
    {
        Self { activation }
    }

    /// Applies the activation to each entry of `input`.
    pub fn forward<S: Scalar>(&self, input: &Matrix<S>) -> (r: Matrix<S>)
        requires
            input.wf(),
        ensures
            r.wf(),
            r@ == self.forward_spec(input@),
    {
        match self.activation {
            Activation::Linear => input.clone(),
            Activation::ReLU => {
                let r = input.apply(relu::<S>);
                proof {
                    r.lemma_view_is(input@.relu());
                }
                r
            },
        }
    }

    /// The slope of the activation at each entry of `input`, which is the
    /// value before the activation was applied.
    pub fn backward<S: Scalar>(&self, input: &Matrix<S>) -> (r: Matrix<S>)
        requires
            input.wf(),
        ensures
            r.wf(),
            r@ == self.backward_spec(input@),
    {
        match self.activation {
            Activation::Linear => Matrix::ones(input.rows, input.cols),
            Activation::ReLU => {
                let r = input.apply(relu_deriv::<S>);
                proof {
                    r.lemma_view_is(input@.relu_deriv());
                }
                r
            },
        }
    }
}

/// The linear activation gives every matrix back as it is, and its slope is
/// one at every entry.
pub proof fn lemma_linear_activation<S: Scalar>(f: ActivationFunction, input: MatrixView<S>)
    requires
        f.kind() is Linear,
    ensures
        f.forward_spec(input) == input,
        f.backward_spec(input) == MatrixView::<S>::ones(input.rows, input.cols),
        forall|i: int, j: int|
            0 <= i < input.rows && 0 <= j < input.cols ==> #[trigger] f.backward_spec(input).at(i, j)
                == S::one_spec(),
{
}

/// The rectifier works entry by entry: each entry of the result is the
/// rectifier of the entry of the input, and each entry of the slope is the
/// slope of the rectifier there.
pub proof fn lemma_relu_activation<S: Scalar>(f: ActivationFunction, input: MatrixView<S>)
    requires
        f.kind() is ReLU,
    ensures
        f.forward_spec(input).same_shape(input),
        f.backward_spec(input).same_shape(input),
        forall|i: int, j: int|
            0 <= i < input.rows && 0 <= j < input.cols ==> #[trigger] f.forward_spec(input).at(i, j)
                == relu_spec(input.at(i, j)),
        forall|i: int, j: int|
            0 <= i < input.rows && 0 <= j < input.cols ==> #[trigger] f.backward_spec(input).at(i, j)
                == relu_deriv_spec(input.at(i, j)),
{
}

} // verus!
