//! The edge function that the two-phase sweeps work on: a linear map followed
//! by an activation, without a bias. Its derivatives are computed from an error
//! that the caller hands in.

use crate::gaussian::function::FunctionView;
use crate::graph::Function;
use crate::infer::variable::Variable;
use crate::linalg::math::{Activation, ActivationFunction};
use crate::linalg::matrix::Matrix;
use crate::linalg::model::MatrixView;
use crate::linalg::vector::Vector;
use crate::scalar::Scalar;
use vstd::prelude::*;

verus! {

/// The map `x ↦ f(x · W)` with weights `W = params` and activation `f`.
#[derive(Debug)]
pub struct Transform<S> {
    pub params: Matrix<S>,
    pub fixed: bool,
    pub function: ActivationFunction,
}

impl<S: Scalar> View for Transform<S> {
    type V = FunctionView<S>;

    open spec fn view(&self) -> FunctionView<S> {
        FunctionView { params: self.params@, bias: None, activation: self.function, fixed: self.fixed }
    }
}

impl<S: Scalar> Transform<S> {
    /// The weights are well-formed.
    pub open spec fn wf(&self) -> bool {
        self.params.wf()
    }

    /// The transform with the given weights and activation.
    pub fn new(params: Matrix<S>, activation: Activation, fixed: bool) -> (r: Self)
        requires
            params.wf(),
        ensures
            r.wf(),
            r.params == params,
            r.fixed == fixed,
            r.function.kind() == activation,
    {
        let function = ActivationFunction::new(activation);
        Self { function, params, fixed }
    }

    /// The prediction `f(x · W)` from the value `x` of `inp`.
    pub fn forward(&self, inp: &Variable<S>) -> (out: Matrix<S>)
        requires
            self.wf(),
            inp.wf(),
            inp.size == self.params.rows,
        ensures
            out.wf(),
            out.rows == 1,
            out.cols == self.params.cols,
            out@ == self@.prediction(inp.data@),
    {
        let product = inp.data.matmul(&self.params);
        let out = self.function.forward(&product);
        out
    }

    /// The slope of the activation at `x · W`, times the error.
    fn scale(&self, inp: &Variable<S>, err: &Matrix<S>) -> (out: Matrix<S>)
        requires
            self.wf(),
            inp.wf(),
            inp.size == self.params.rows,
            err.wf(),
            err.rows == 1,
            err.cols == self.params.cols,
        ensures
            out.wf(),
            out.rows == 1,
            out.cols == self.params.cols,
            out@ == self@.scaled_error(inp.data@, err@),
    {
        let product = inp.data.matmul(&self.params);
        let fn_deriv = self.function.backward(&product);
        err.mul(&fn_deriv)
    }

    /// The error `err` at the target carried back to the source `inp`:
    /// `(err ⊙ f'(x · W)) · Wᵀ`.
    pub fn backward(&self, inp: &Variable<S>, err: &Matrix<S>) -> (out: Matrix<S>)
        requires
            self.wf(),
            inp.wf(),
            inp.size == self.params.rows,
            err.wf(),
            err.rows == 1,
            err.cols == self.params.cols,
        ensures
            out.wf(),
            out.rows == 1,
            out.cols == self.params.rows,
            out@ == self@.projected(inp.data@, err@),
    {
        let err_deriv = self.scale(inp, err);
        let out = err_deriv.matmul(&self.params.transpose());
        out
    }

    /// The error `err` at the target carried to the weights:
    /// `xᵀ · (err ⊙ f'(x · W))`.
    pub fn backward_params(&self, inp: &Variable<S>, err: &Matrix<S>) -> (out: Matrix<S>)
        requires
            self.wf(),
            inp.wf(),
            inp.size == self.params.rows,
            err.wf(),
            err.rows == 1,
            err.cols == self.params.cols,
        ensures
            out.wf(),
            out.rows == self.params.rows,
            out.cols == self.params.cols,
            out@ == self@.outer(inp.data@, err@),
    {
        let err_deriv = self.scale(inp, err);
        let out = inp.data.transpose().matmul(&err_deriv);
        out
    }
}

impl<S: Scalar> Function<Variable<S>> for Transform<S> {
    open spec fn valid(&self) -> bool {
        self.wf()
    }

    open spec fn input_size(&self) -> nat {
        self.params.rows as nat
    }

    open spec fn output_size(&self) -> nat {
        self.params.cols as nat
    }

    open spec fn forward_spec(&self, input: &Variable<S>) -> MatrixView<S> {
        self@.prediction(input.data@)
    }

    open spec fn backward_spec(&self, input: &Variable<S>, target: &Variable<S>) -> (
        MatrixView<S>,
        MatrixView<S>,
    ) {
        (
            self@.source_derivative(input.data@, target.data@),
            self@.target_derivative(input.data@, target.data@),
        )
    }

    open spec fn backward_params_spec(&self, input: &Variable<S>, target: &Variable<S>) -> (
        MatrixView<S>,
        Seq<S>,
    ) {
        (
            self@.weight_derivative(input.data@, target.data@),
            self@.bias_derivative(input.data@, target.data@),
        )
    }

    open spec fn updated(&self, derivatives: (MatrixView<S>, Seq<S>), after: &Self) -> bool {
        after@ == self@.adjusted(derivatives.0, derivatives.1)
    }

    fn forward(&self, input: &Variable<S>) -> (r: Matrix<S>) {
        Transform::forward(self, input)
    }

    /// The derivative for the source and the derivative for the target, from
    /// the error of the prediction against the value of `target`.
    fn backward(&self, input: &Variable<S>, target: &Variable<S>) -> (r: (Matrix<S>, Matrix<S>)) {
        let prediction = Transform::forward(self, input);
        let error = target.data.sub(&prediction);
        let source_deriv = Transform::backward(self, input, &error);
        let target_deriv = error.neg();
        (source_deriv, target_deriv)
    }

    /// The derivative for the weights, from the error of the prediction
    /// against the value of `target`, and the error summed over its rows.
    fn backward_params(&self, input: &Variable<S>, target: &Variable<S>) -> (r: (
        Matrix<S>,
        Vector<S>,
    )) {
        let prediction = Transform::forward(self, input);
        let error = target.data.sub(&prediction);
        let weight_deriv = Transform::backward_params(self, input, &error);
        let bias_deriv = error.sum(0);
        (weight_deriv, bias_deriv)
    }

    /// Unless the transform is fixed, adds the derivative for the weights,
    /// scaled by the step size, to the weights. There is no bias to adjust.
    fn update(&mut self, derivatives: (Matrix<S>, Vector<S>)) {
        if !self.fixed {
            let (weight_deriv, _) = derivatives;
            let step = |v: S| -> (r: S)
                ensures
                    r == v.step_spec(),
                { v.step() };
            let weight_step = weight_deriv.apply(step);
            proof {
                weight_step.lemma_view_is(weight_deriv@.stepped());
            }
            self.params.add_assign(&weight_step);
        }
    }
}

} // verus!
