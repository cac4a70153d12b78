//! The edge function of the graph: an affine map followed by an activation,
//! with the derivatives that an edge hands to its two nodes and to its own
//! parameters.

use crate::gaussian::variable::GaussianVariable;
use crate::graph::Function;
use crate::linalg::math::{Activation, ActivationFunction};
use crate::linalg::matrix::Matrix;
use crate::linalg::model::{plus_seq, stepped_seq, MatrixView};
use crate::linalg::vector::Vector;
use crate::scalar::Scalar;
use vstd::prelude::*;

verus! {

/// A transform as a mathematical value: the weights `params`, the bias if
/// there is one, the activation, and whether the parameters are fixed.
#[verifier::ext_equal]
pub struct FunctionView<S> {
    pub params: MatrixView<S>,
    pub bias: Option<Seq<S>>,
    pub activation: ActivationFunction,
    pub fixed: bool,
}

impl<S: Scalar> FunctionView<S> {
    /// The weights are well-formed and the bias, if there is one, has one
    /// entry for each of their columns.
    pub open spec fn wf(self) -> bool {
        &&& self.params.wf()
        &&& self.bias matches Some(b) ==> b.len() == self.params.cols
    }

    /// The value before the activation: `x · W`.
    pub open spec fn pre_activation(self, x: MatrixView<S>) -> MatrixView<S> {
        x.matmul(self.params)
    }

    /// `m` with the bias added to each row; `m` itself where there is no bias.
    pub open spec fn biased(self, m: MatrixView<S>) -> MatrixView<S> {
        match self.bias {
            Some(b) => m.plus_row(b),
            None => m,
        }
    }

    /// The prediction of the target from the source value `x`: the activation
    /// of `x · W`, plus the bias.
    pub open spec fn prediction(self, x: MatrixView<S>) -> MatrixView<S> {
        self.biased(self.activation.forward_spec(self.pre_activation(x)))
    }

    /// The error: the target value `t` minus the prediction from `x`.
    pub open spec fn error(self, x: MatrixView<S>, t: MatrixView<S>) -> MatrixView<S> {
        t.minus(self.prediction(x))
    }

    /// `err` times the slope of the activation at `x · W`, entry by entry.
    pub open spec fn scaled_error(self, x: MatrixView<S>, err: MatrixView<S>) -> MatrixView<S> {
        err.hadamard(self.activation.backward_spec(self.pre_activation(x)))
    }

    /// `err` carried back to the source: `(err ⊙ f'(x · W)) · Wᵀ`, where `f'` is
    /// the slope of the activation.
    pub open spec fn projected(self, x: MatrixView<S>, err: MatrixView<S>) -> MatrixView<S> {
        self.scaled_error(x, err).matmul(self.params.transposed())
    }

    /// `err` carried to the weights: `xᵀ · (err ⊙ f'(x · W))`.
    pub open spec fn outer(self, x: MatrixView<S>, err: MatrixView<S>) -> MatrixView<S> {
        x.transposed().matmul(self.scaled_error(x, err))
    }

    /// The error times the slope of the activation at `x · W`, entry by entry.
    pub open spec fn delta(self, x: MatrixView<S>, t: MatrixView<S>) -> MatrixView<S> {
        self.scaled_error(x, self.error(x, t))
    }

    /// The derivative for the source: `delta · Wᵀ`.
    pub open spec fn source_derivative(self, x: MatrixView<S>, t: MatrixView<S>) -> MatrixView<S> {
        self.projected(x, self.error(x, t))
    }

    /// The derivative for the target: the error with its sign changed.
    pub open spec fn target_derivative(self, x: MatrixView<S>, t: MatrixView<S>) -> MatrixView<S> {
        self.error(x, t).negated()
    }

    /// The derivative for the weights: `xᵀ · delta`.
    pub open spec fn weight_derivative(self, x: MatrixView<S>, t: MatrixView<S>) -> MatrixView<S> {
        self.outer(x, self.error(x, t))
    }

    /// The derivative for the bias: the error summed over its rows.
    pub open spec fn bias_derivative(self, x: MatrixView<S>, t: MatrixView<S>) -> Seq<S> {
        self.error(x, t).column_sums()
    }

    /// The transform after its parameters have taken the derivatives `dw` and
    /// `db`: unchanged if it is fixed; else with `dw`, scaled by the step size,
    /// added to the weights, and `db`, scaled alike, added to the bias if there
    /// is one.
    pub open spec fn adjusted(self, dw: MatrixView<S>, db: Seq<S>) -> Self {
        if self.fixed {
            self
        } else {
            FunctionView {
                params: self.params.plus(dw.stepped()),
                bias: match self.bias {
                    Some(b) => Some(plus_seq(b, stepped_seq(db))),
                    None => None,
                },
                ..self
            }
        }
    }
}

/// An affine map `x · W + b` followed by an activation. The bias `b` is
/// optional; without one nothing is added.
#[derive(Debug)]
pub struct GaussianFunction<S> {
    pub params: Matrix<S>,
    pub bias: Option<Vector<S>>,
    pub activation: ActivationFunction,
    pub fixed: bool,
}

impl<S: Scalar> View for GaussianFunction<S> {
    type V = FunctionView<S>;

    open spec fn view(&self) -> FunctionView<S> {
        FunctionView {
            params: self.params@,
            bias: match self.bias {
                Some(b) => Some(b@),
                None => None,
            },
            activation: self.activation,
            fixed: self.fixed,
        }
    }
}

impl<S: Scalar> GaussianFunction<S> {
    /// The weights are well-formed, and the bias, if there is one, is
    /// well-formed and has one entry for each column of the weights.
    pub open spec fn wf(&self) -> bool {
        &&& self.params.wf()
        &&& self.bias matches Some(b) ==> b.wf() && b.size == self.params.cols
    }

    /// The transform with the given weights and no bias.
    pub fn new(params: Matrix<S>, activation: Activation, fixed: bool) -> (r: Self)
        requires
            params.wf(),
        ensures
            r.wf(),
            r.params == params,
            r.bias is None,
            r.activation.kind() == activation,
            r.fixed == fixed,
    {
        let activation = ActivationFunction::new(activation);
        Self { params, bias: None, activation, fixed }
    }

    /// The transform with the given weights and bias.
    pub fn with_bias(params: Matrix<S>, bias: Vector<S>, activation: Activation, fixed: bool) -> (r:
        Self)
        requires
            params.wf(),
            bias.wf(),
            bias.size == params.cols,
        ensures
            r.wf(),
            r.params == params,
            r.bias == Some(bias),
            r.activation.kind() == activation,
            r.fixed == fixed,
    {
        let activation = ActivationFunction::new(activation);
        Self { params, bias: Some(bias), activation, fixed }
    }

    /// The prediction from the source value `x`, and `x · W` with it.
    fn predict(&self, x: &Matrix<S>) -> (r: (Matrix<S>, Matrix<S>))
        requires
            self.wf(),
            x.wf(),
            x.cols == self.params.rows,
        ensures
            r.0.wf(),
            r.1.wf(),
            r.0@ == self@.prediction(x@),
            r.1@ == self@.pre_activation(x@),
    {
        let product = x.matmul(&self.params);
        let activated = self.activation.forward(&product);
        let pred = match &self.bias {
            Some(b) => {
                activated.add_vector(b)
            },
            None => activated,
        };
        (pred, product)
    }

    /// The error of the prediction from `x` against the target value `t`, and
    /// the error times the slope of the activation.
    fn residual(&self, x: &Matrix<S>, t: &Matrix<S>) -> (r: (Matrix<S>, Matrix<S>))
        requires
            self.wf(),
            x.wf(),
            t.wf(),
            x.cols == self.params.rows,
            t.rows == x.rows,
            t.cols == self.params.cols,
        ensures
            r.0.wf(),
            r.1.wf(),
            r.0@ == self@.error(x@, t@),
            r.1@ == self@.delta(x@, t@),
            r.0@.rows == x.rows,
            r.0@.cols == self.params.cols,
            r.1@.rows == x.rows,
            r.1@.cols == self.params.cols,
    {
        let (pred, product) = self.predict(x);
        let err = t.sub(&pred);
        let fn_deriv = self.activation.backward(&product);
        let err_deriv = err.mul(&fn_deriv);
        (err, err_deriv)
    }
}

impl<S: Scalar> Function<GaussianVariable<S>> for GaussianFunction<S> {
    open spec fn valid(&self) -> bool {
        self.wf()
    }

    open spec fn input_size(&self) -> nat {
        self.params.rows as nat
    }

    open spec fn output_size(&self) -> nat {
        self.params.cols as nat
    }

    open spec fn forward_spec(&self, input: &GaussianVariable<S>) -> MatrixView<S> {
        self@.prediction(input.data@)
    }

    open spec fn backward_spec(&self, input: &GaussianVariable<S>, target: &GaussianVariable<S>) -> (
        MatrixView<S>,
        MatrixView<S>,
    ) {
        (
            self@.source_derivative(input.data@, target.data@),
            self@.target_derivative(input.data@, target.data@),
        )
    }

    open spec fn backward_params_spec(
        &self,
        input: &GaussianVariable<S>,
        target: &GaussianVariable<S>,
    ) -> (MatrixView<S>, Seq<S>) {
        (
            self@.weight_derivative(input.data@, target.data@),
            self@.bias_derivative(input.data@, target.data@),
        )
    }

    open spec fn updated(&self, derivatives: (MatrixView<S>, Seq<S>), after: &Self) -> bool {
        after@ == self@.adjusted(derivatives.0, derivatives.1)
    }

    /// The prediction of the target: the activation of `x · W`, plus the bias.
    fn forward(&self, inp: &GaussianVariable<S>) -> (r: Matrix<S>) {
        let (pred, _) = self.predict(&inp.data);
        pred
    }

    /// The derivative for the source, `(e ⊙ f'(x · W)) · Wᵀ`, and the
    /// derivative for the target, `-e`, where `e` is the target minus the
    /// prediction and `f'` the slope of the activation.
    fn backward(&self, inp: &GaussianVariable<S>, target: &GaussianVariable<S>) -> (r: (
        Matrix<S>,
        Matrix<S>,
    )) {
        let (err, err_deriv) = self.residual(&inp.data, &target.data);
        let weights_t = self.params.transpose();
        let source_deriv = err_deriv.matmul(&weights_t);
        let target_deriv = err.neg();
        (source_deriv, target_deriv)
    }

    /// The derivative for the weights, `xᵀ · (e ⊙ f'(x · W))`, and the
    /// derivative for the bias, `e` summed over its rows.
    fn backward_params(&self, inp: &GaussianVariable<S>, target: &GaussianVariable<S>) -> (r: (
        Matrix<S>,
        Vector<S>,
    )) {
        let (err, err_deriv) = self.residual(&inp.data, &target.data);
        let weight_deriv = inp.data.transpose().matmul(&err_deriv);
        let bias_deriv = err.sum(0);
        (weight_deriv, bias_deriv)
    }

    /// Unless the transform is fixed, adds the derivatives, scaled by the step
    /// size, to the weights and to the bias, if there is one. Parameters move
    /// by the same step size as variables.
    fn update(&mut self, derivatives: (Matrix<S>, Vector<S>)) {
        if !self.fixed {
            let (weight_deriv, bias_deriv) = derivatives;
            let step = |v: S| -> (r: S)
                ensures
                    r == v.step_spec(),
                { v.step() };
            let weight_step = weight_deriv.apply(step);
            proof {
                weight_step.lemma_view_is(weight_deriv@.stepped());
            }
            self.params.add_assign(&weight_step);
            match &mut self.bias {
                Some(b) => {
                    let bias_step = bias_deriv.apply(step);
                    assert(bias_step@ =~= stepped_seq(bias_deriv@));
                    b.add_assign(&bias_step);
                },
                None => {},
            }
        }
    }
}

} // verus!
