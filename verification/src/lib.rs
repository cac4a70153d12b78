//! Predictive coding on a graph of vector-valued variables.
//!
//! Observed variables are fixed, the others are free. Every edge of the graph
//! predicts its target from its source through an affine map and an
//! activation. A sweep of inference moves the free variables so that the
//! errors of the predictions shrink; a sweep of learning moves the parameters
//! of the edges to the same end. The caller chooses how many sweeps to run.

pub mod gaussian;
pub mod graph;
pub mod infer;
pub mod integer;
pub mod linalg;
pub mod scalar;
pub mod transform;

pub use crate::gaussian::{function::GaussianFunction, variable::GaussianVariable};
pub use crate::graph::{Function, Graph, Variable};
pub use crate::linalg::{math::Activation, matrix::Matrix};
pub use crate::scalar::{Ring, Scalar};
