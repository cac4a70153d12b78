//! The library over rounded reals: `f64` behind the operations of `Scalar`.

use predictive_coding::gaussian::function::GaussianFunction;
use predictive_coding::gaussian::variable::GaussianVariable;
use predictive_coding::graph::{Function, Graph, Variable};
use predictive_coding::linalg::math::{Activation, ActivationFunction};
use predictive_coding::linalg::matrix::Matrix;
use predictive_coding::linalg::vector::Vector;
use predictive_coding::scalar::Scalar;
use predictive_coding::transform::{relu, relu_deriv};

#[derive(Clone, Copy, Debug, PartialEq)]
struct Real(f64);

impl Scalar for Real {
    fn zero_spec() -> Self {
        Real(0.0)
    }

    fn one_spec() -> Self {
        Real(1.0)
    }

    fn plus_spec(self, rhs: Self) -> Self {
        Real(self.0 + rhs.0)
    }

    fn minus_spec(self, rhs: Self) -> Self {
        Real(self.0 - rhs.0)
    }

    fn times_spec(self, rhs: Self) -> Self {
        Real(self.0 * rhs.0)
    }

    fn negated_spec(self) -> Self {
        Real(-self.0)
    }

    fn step_spec(self) -> Self {
        Real(self.0 * 0.01)
    }

    fn positive_spec(self) -> bool {
        self.0 > 0.0
    }

    fn close_spec(self, rhs: Self) -> bool {
        (self.0 - rhs.0).abs() <= f64::EPSILON
    }

    fn zero() -> Self {
        Real(0.0)
    }

    fn one() -> Self {
        Real(1.0)
    }

    fn plus(self, rhs: Self) -> Self {
        Real(self.0 + rhs.0)
    }

    fn minus(self, rhs: Self) -> Self {
        Real(self.0 - rhs.0)
    }

    fn times(self, rhs: Self) -> Self {
        Real(self.0 * rhs.0)
    }

    fn negated(self) -> Self {
        Real(-self.0)
    }

    fn step(self) -> Self {
        Real(self.0 * 0.01)
    }

    fn positive(self) -> bool {
        self.0 > 0.0
    }

    fn close(self, rhs: Self) -> bool {
        (self.0 - rhs.0).abs() <= f64::EPSILON
    }

    fn random() -> Self {
        Real(rand::random::<f64>())
    }
}

fn reals(rows: Vec<Vec<f64>>) -> Vec<Vec<Real>> {
    rows.into_iter().map(|row| row.into_iter().map(Real).collect()).collect()
}

fn matrix(rows: Vec<Vec<f64>>) -> Matrix<Real> {
    Matrix::new(reals(rows))
}

fn floats(m: &Matrix<Real>) -> Vec<Vec<f64>> {
    m.data.iter().map(|row| row.iter().map(|x| x.0).collect()).collect()
}

fn bits(m: &Matrix<Real>) -> Vec<Vec<u64>> {
    m.data.iter().map(|row| row.iter().map(|x| x.0.to_bits()).collect()).collect()
}

fn truncation() -> Matrix<Real> {
    matrix(vec![
        vec![1.0, 0.0, 0.0],
        vec![0.0, 1.0, 0.0],
        vec![0.0, 0.0, 1.0],
        vec![0.0, 0.0, 0.0],
    ])
}

fn node(name: &str, row: Vec<f64>, fixed: bool) -> GaussianVariable<Real> {
    GaussianVariable::new(name, matrix(vec![row]), fixed)
}

fn linear(params: Matrix<Real>) -> GaussianFunction<Real> {
    GaussianFunction::new(params, Activation::Linear, false)
}

fn value(graph: &Graph<GaussianVariable<Real>, GaussianFunction<Real>>, index: usize) -> Vec<f64> {
    floats(&graph.get_node(index).unwrap().data)[0].clone()
}

fn assert_near(actual: &[f64], expected: &[f64], tolerance: f64) {
    assert_eq!(actual.len(), expected.len());
    for (a, e) in actual.iter().zip(expected.iter()) {
        assert!((a - e).abs() <= tolerance, "{} is not within {} of {}", a, tolerance, e);
    }
}

#[test]
fn test_new() {
    let data = reals(vec![vec![1.0, 2.0], vec![3.0, 4.0]]);
    let matrix = Matrix::new(data.clone());
    assert_eq!(matrix.data, data);
    assert_eq!(matrix.rows, 2);
    assert_eq!(matrix.cols, 2);
}

#[test]
fn test_ones() {
    let ones = Matrix::<Real>::ones(2, 2);
    assert_eq!(floats(&ones), vec![vec![1.0, 1.0], vec![1.0, 1.0]]);
}

#[test]
fn test_zeros() {
    let zeros = Matrix::<Real>::zeros(2, 2);
    assert_eq!(floats(&zeros), vec![vec![0.0, 0.0], vec![0.0, 0.0]]);
}

#[test]
fn test_add() {
    let a = Matrix::<Real>::ones(2, 2);
    let b = Matrix::<Real>::ones(2, 2);
    let result = a.add(&b);
    assert_eq!(floats(&result), vec![vec![2.0, 2.0], vec![2.0, 2.0]]);
}

#[test]
fn test_subtract() {
    let a = Matrix::<Real>::ones(2, 2);
    let b = Matrix::<Real>::ones(2, 2);
    let result = a.sub(&b);
    assert_eq!(floats(&result), vec![vec![0.0, 0.0], vec![0.0, 0.0]]);
}

#[test]
fn test_mul_elementwise() {
    let a = matrix(vec![vec![1.0, 2.0], vec![3.0, 4.0]]);
    let b = matrix(vec![vec![2.0, 3.0], vec![4.0, 5.0]]);
    let result = a.mul(&b);
    assert_eq!(floats(&result), vec![vec![2.0, 6.0], vec![12.0, 20.0]]);
}

#[test]
fn test_matmul() {
    let a = matrix(vec![vec![1.0, 2.0], vec![3.0, 4.0]]);
    let b = matrix(vec![vec![2.0, 3.0], vec![4.0, 5.0]]);
    let result = a.matmul(&b);
    assert_eq!(floats(&result), vec![vec![10.0, 13.0], vec![22.0, 29.0]]);
}

#[test]
fn test_transpose() {
    let data = vec![vec![1.0, 2.0], vec![3.0, 4.0]];
    let matrix = matrix(data.clone());
    let transposed_matrix = matrix.transpose();
    assert_eq!(floats(&transposed_matrix), vec![vec![1.0, 3.0], vec![2.0, 4.0]]);
    assert_eq!(transposed_matrix.rows, 2);
    assert_eq!(transposed_matrix.cols, 2);
}

#[test]
fn test_subtract_matrix_from_variable() {
    let var = GaussianVariable::new("test", Matrix::<Real>::ones(1, 2), false);
    let mat = matrix(vec![vec![0.5, 0.5]]);
    let result = var.sub(&mat);
    assert_eq!(floats(&result), vec![vec![0.5, 0.5]]);
}

#[test]
fn test_linear_forward() {
    let activation = ActivationFunction::new(Activation::Linear);
    let input = matrix(vec![vec![-1.0, 2.0], vec![3.0, -4.0]]);
    let output = activation.forward(&input);
    assert_eq!(output, input);
}

#[test]
fn test_linear_backward() {
    let activation = ActivationFunction::new(Activation::Linear);
    let input = matrix(vec![vec![-1.0, 2.0], vec![3.0, -4.0]]);
    let output = activation.backward(&input);
    let expected = matrix(vec![vec![1.0, 1.0], vec![1.0, 1.0]]);
    assert_eq!(output, expected);
}

#[test]
fn test_relu_forward() {
    let activation = ActivationFunction::new(Activation::ReLU);
    let input = matrix(vec![vec![-1.0, 2.0], vec![3.0, -4.0]]);
    let output = activation.forward(&input);
    let expected = matrix(vec![vec![0.0, 2.0], vec![3.0, 0.0]]);
    assert_eq!(output, expected);
}

#[test]
fn test_relu_backward() {
    let activation = ActivationFunction::new(Activation::ReLU);
    let input = matrix(vec![vec![-1.0, 2.0], vec![3.0, -4.0]]);
    let output = activation.backward(&input);
    let expected = matrix(vec![vec![0.0, 1.0], vec![1.0, 0.0]]);
    assert_eq!(output, expected);
}

#[test]
fn equality_is_within_the_tolerance() {
    let a = matrix(vec![vec![1.0, 2.0]]);
    let nearby = matrix(vec![vec![1.0 + f64::EPSILON, 2.0]]);
    let far = matrix(vec![vec![1.0 + 4.0 * f64::EPSILON, 2.0]]);
    let other_shape = matrix(vec![vec![1.0], vec![2.0]]);
    assert!(a == nearby);
    assert!(a != far);
    assert!(a != other_shape);
}

#[test]
fn relu_at_the_boundary() {
    assert_eq!(relu(Real(0.0)), Real(0.0));
    assert_eq!(relu_deriv(Real(0.0)), Real(0.0));
    assert_eq!(relu(Real(-3.5)), Real(0.0));
    assert_eq!(relu(Real(3.5)), Real(3.5));
    assert_eq!(relu_deriv(Real(3.5)), Real(1.0));
    assert_eq!(relu_deriv(Real(-3.5)), Real(0.0));
    assert_eq!(relu(Real(f64::NAN)), Real(0.0));
}

#[test]
fn scalar_operations_on_a_matrix() {
    let a = matrix(vec![vec![1.0, -2.0], vec![0.5, 4.0]]);
    assert_eq!(floats(&a.add_scalar(Real(1.5))), vec![vec![2.5, -0.5], vec![2.0, 5.5]]);
    assert_eq!(floats(&a.mul_scalar(Real(4.0))), vec![vec![4.0, -8.0], vec![2.0, 16.0]]);
    assert_eq!(floats(&a.neg()), vec![vec![-1.0, 2.0], vec![-0.5, -4.0]]);
    let bias = Vector::new(vec![Real(10.0), Real(20.0)]);
    assert_eq!(floats(&a.add_vector(&bias)), vec![vec![11.0, 18.0], vec![10.5, 24.0]]);
}

#[test]
fn sums_along_both_axes() {
    let a = matrix(vec![vec![1.0, 2.0, 3.0], vec![4.0, 5.0, 6.0]]);
    let columns = a.sum(0);
    let rows = a.sum(1);
    assert_eq!(columns.size, 3);
    assert_eq!(rows.size, 2);
    assert_eq!(columns.data, vec![Real(5.0), Real(7.0), Real(9.0)]);
    assert_eq!(rows.data, vec![Real(6.0), Real(15.0)]);
}

#[test]
fn random_matrix_is_uniform_on_the_unit_interval() {
    let m = Matrix::<Real>::random(4, 7);
    assert_eq!(m.rows, 4);
    assert_eq!(m.cols, 7);
    assert_eq!(m.data.len(), 4);
    for row in &m.data {
        assert_eq!(row.len(), 7);
        for x in row {
            assert!(0.0 <= x.0 && x.0 < 1.0);
        }
    }
    let v = Vector::<Real>::random(5);
    assert_eq!(v.size, 5);
    assert_eq!(v.data.len(), 5);
}

#[test]
fn forward_adds_the_bias_after_the_activation() {
    let weights = matrix(vec![vec![1.0, -1.0], vec![2.0, 0.5]]);
    let bias = Vector::new(vec![Real(-10.0), Real(3.0)]);
    let f = GaussianFunction::with_bias(weights, bias, Activation::ReLU, false);
    let x = node("x", vec![1.0, 2.0], true);
    // x · W = [5, 0]; relu = [5, 0]; plus bias = [-5, 3]
    assert_eq!(floats(&f.forward(&x)), vec![vec![-5.0, 3.0]]);
}

#[test]
fn backward_with_relu_takes_the_slope_before_the_activation() {
    let weights = matrix(vec![vec![1.0, -1.0], vec![2.0, 0.5]]);
    let f = GaussianFunction::new(weights, Activation::ReLU, false);
    let x = node("x", vec![1.0, -2.0], false);
    let t = node("t", vec![4.0, 1.0], false);
    // z = x · W = [-3, -2]; prediction = [0, 0]; e = [4, 1]; slope = [0, 0]
    let (d_source, d_target) = f.backward(&x, &t);
    assert_eq!(floats(&d_source), vec![vec![0.0, 0.0]]);
    assert_eq!(floats(&d_target), vec![vec![-4.0, -1.0]]);

    let y = node("y", vec![3.0, 1.0], false);
    // z = y · W = [5, -2.5]; prediction = [5, 0]; e = [-1, 1]; slope = [1, 0]
    // delta = [-1, 0]; d_source = delta · Wᵀ = [-1, -2]
    let (d_source, d_target) = f.backward(&y, &t);
    assert_eq!(floats(&d_source), vec![vec![-1.0, -2.0]]);
    assert_eq!(floats(&d_target), vec![vec![1.0, -1.0]]);
}

#[test]
fn linear_edge_derivatives() {
    let weights = matrix(vec![vec![1.0, 2.0, 0.0], vec![0.0, 1.0, -1.0]]);
    let f = linear(weights);
    let x = node("x", vec![2.0, 3.0], false);
    let t = node("t", vec![1.0, 1.0, 1.0], false);
    // x · W = [2, 7, -3]; e = t - x · W = [-1, -6, 4]
    let (d_source, d_target) = f.backward(&x, &t);
    assert_eq!(floats(&d_target), vec![vec![1.0, 6.0, -4.0]]);
    // e · Wᵀ = [-1 - 12, -6 - 4] = [-13, -10]
    assert_eq!(floats(&d_source), vec![vec![-13.0, -10.0]]);
    let (dw, db) = f.backward_params(&x, &t);
    // xᵀ · e
    assert_eq!(floats(&dw), vec![vec![-2.0, -12.0, 8.0], vec![-3.0, -18.0, 12.0]]);
    assert_eq!(db.data, vec![Real(-1.0), Real(-6.0), Real(4.0)]);
}

#[test]
fn update_steps_by_one_hundredth_of_each_derivative() {
    let mut x = node("x", vec![1.0, 2.0], false);
    let derivatives = vec![matrix(vec![vec![100.0, -50.0]]), matrix(vec![vec![25.0, 0.0]])];
    x.update(&derivatives);
    assert_eq!(floats(&x.data), vec![vec![1.0 + 100.0 * 0.01 + 25.0 * 0.01, 2.0 + -50.0 * 0.01 + 0.0]]);
    assert_eq!(floats(&x.data), vec![vec![2.25, 1.5]]);
}

#[test]
fn parameters_step_by_one_hundredth() {
    let weights = matrix(vec![vec![1.0, 2.0]]);
    let bias = Vector::new(vec![Real(0.5), Real(-0.5)]);
    let mut f = GaussianFunction::with_bias(weights, bias, Activation::Linear, false);
    f.update((matrix(vec![vec![200.0, -100.0]]), Vector::new(vec![Real(50.0), Real(150.0)])));
    assert_eq!(floats(&f.params), vec![vec![3.0, 1.0]]);
    assert_eq!(f.bias.as_ref().unwrap().data, vec![Real(1.0), Real(1.0)]);

    let mut unbiased = linear(matrix(vec![vec![1.0, 2.0]]));
    unbiased.update((matrix(vec![vec![200.0, -100.0]]), Vector::new(vec![Real(50.0), Real(150.0)])));
    assert_eq!(floats(&unbiased.params), vec![vec![3.0, 1.0]]);
    assert!(unbiased.bias.is_none());
}

#[test]
fn fixed_transform_ignores_updates() {
    let mut f = GaussianFunction::new(matrix(vec![vec![1.0, 2.0]]), Activation::Linear, true);
    let before = bits(&f.params);
    f.update((matrix(vec![vec![200.0, -100.0]]), Vector::new(vec![Real(50.0), Real(150.0)])));
    assert_eq!(bits(&f.params), before);
}

#[test]
fn residual_never_grows_with_identity_weights() {
    let mut graph = Graph::new();
    let x = graph.add_node(node("x", vec![-3.0, 0.5, 12.0], false));
    let t = graph.add_node(node("t", vec![2.0, 4.0, 6.0], true));
    graph.add_edge(x, t, linear(Matrix::identity(3)));
    let residual = |graph: &Graph<GaussianVariable<Real>, GaussianFunction<Real>>| -> f64 {
        let x = value(graph, 0);
        let t = value(graph, 1);
        x.iter().zip(t.iter()).map(|(a, b)| (b - a) * (b - a)).sum::<f64>().sqrt()
    };
    let mut last = residual(&graph);
    for _ in 0..300 {
        graph.infer();
        let next = residual(&graph);
        assert!(next <= last);
        last = next;
    }
    assert!(last < 0.6);
    assert_eq!(value(&graph, t), vec![2.0, 4.0, 6.0]);
}

#[test]
fn single_edge_pull() {
    let mut graph = Graph::new();
    let prior = graph.add_node(node("prior", vec![5.0, 5.0, 5.0, 5.0], true));
    let mu = graph.add_node(node("mu", vec![1.0, 1.0, 1.0], false));
    graph.add_edge(prior, mu, linear(truncation()));
    for _ in 0..100 {
        graph.infer();
    }
    // each sweep closes one hundredth of the gap: 5 - 4 * 0.99^100
    let expected = 5.0 - 4.0 * 0.99f64.powi(100);
    assert_near(&value(&graph, mu), &[expected, expected, expected], 1e-9);
    for _ in 0..900 {
        graph.infer();
    }
    assert_near(&value(&graph, mu), &[5.0, 5.0, 5.0], 1e-2);
}

#[test]
fn two_endpoint_balance() {
    let mut graph = Graph::new();
    let prior = graph.add_node(node("prior", vec![5.0, 5.0, 5.0, 5.0], true));
    let mu = graph.add_node(node("mu", vec![1.0, 1.0, 1.0], false));
    let data = graph.add_node(node("data", vec![10.0, 10.0, 10.0], true));
    graph.add_edges(vec![
        (prior, mu, linear(truncation())),
        (mu, data, linear(Matrix::identity(3))),
    ]);
    for _ in 0..100 {
        graph.infer();
    }
    // two unit pulls: the gap to the mean shrinks by one fiftieth per sweep
    let expected = 7.5 - 6.5 * 0.98f64.powi(100);
    assert_near(&value(&graph, mu), &[expected, expected, expected], 1e-9);
    let after_100 = value(&graph, mu)[0];
    assert!(5.0 < after_100 && after_100 < 10.0);
    for _ in 0..400 {
        graph.infer();
    }
    assert_near(&value(&graph, mu), &[7.5, 7.5, 7.5], 0.1);
}

#[test]
fn dual_prior() {
    let mut graph = Graph::new();
    let wide = graph.add_node(node("wide", vec![20.0, 20.0, 20.0, 20.0], true));
    let narrow = graph.add_node(node("narrow", vec![20.0, 20.0, 20.0], true));
    let mu = graph.add_node(node("mu", vec![1.0, 1.0, 1.0], false));
    let data = graph.add_node(node("data", vec![10.0, 10.0, 10.0], true));
    graph.add_edge(wide, mu, linear(truncation()));
    graph.add_edge(narrow, mu, linear(Matrix::identity(3)));
    graph.add_edge(mu, data, linear(Matrix::identity(3)));
    for _ in 0..100 {
        graph.infer();
    }
    let mean = (20.0 + 20.0 + 10.0) / 3.0;
    let expected = mean - (mean - 1.0) * 0.97f64.powi(100);
    assert_near(&value(&graph, mu), &[expected, expected, expected], 1e-9);
    for _ in 0..200 {
        graph.infer();
    }
    assert_near(&value(&graph, mu), &[mean, mean, mean], 0.2);
}

#[test]
fn learn_identity() {
    let mut graph = Graph::new();
    let x = graph.add_node(node("x", vec![1.0, 2.0, 3.0], true));
    let t = graph.add_node(node("t", vec![2.0, 4.0, 6.0], true));
    graph.add_edge(x, t, linear(Matrix::random(3, 3)));
    for _ in 0..2000 {
        graph.learn();
    }
    let preds = graph.forward();
    let prediction = preds.get(&(x, t)).unwrap();
    assert_near(&floats(prediction)[0], &[2.0, 4.0, 6.0], 1e-2);
    assert_eq!(value(&graph, x), vec![1.0, 2.0, 3.0]);
    assert_eq!(value(&graph, t), vec![2.0, 4.0, 6.0]);
}

#[test]
fn fixed_source_immobility() {
    let mut graph = Graph::new();
    let prior = graph.add_node(node("prior", vec![5.0, 5.0, 5.0, 5.0], true));
    let mu = graph.add_node(node("mu", vec![1.0, 1.0, 1.0], false));
    graph.add_edge(prior, mu, linear(truncation()));
    let before = bits(&graph.get_node(prior).unwrap().data);
    let mut last_mu = bits(&graph.get_node(mu).unwrap().data);
    for _ in 0..50 {
        graph.infer();
        assert_eq!(bits(&graph.get_node(prior).unwrap().data), before);
        let next_mu = bits(&graph.get_node(mu).unwrap().data);
        assert!(next_mu != last_mu);
        last_mu = next_mu;
    }
}

#[test]
fn learning_leaves_the_nodes_and_fixed_transforms_alone() {
    let mut graph = Graph::new();
    let x = graph.add_node(node("x", vec![1.0, 2.0], false));
    let t = graph.add_node(node("t", vec![3.0, -1.0], false));
    let frozen = GaussianFunction::new(matrix(vec![vec![0.5, 0.0], vec![0.0, 0.5]]), Activation::Linear, true);
    let free = GaussianFunction::new(matrix(vec![vec![0.5, 0.0], vec![0.0, 0.5]]), Activation::Linear, false);
    graph.add_edge(x, t, frozen);
    graph.add_edge(x, t, free);
    for _ in 0..10 {
        graph.learn();
    }
    assert_eq!(value(&graph, x), vec![1.0, 2.0]);
    assert_eq!(value(&graph, t), vec![3.0, -1.0]);
    let edges: Vec<_> = graph.get_edges().collect();
    assert_eq!(floats(&edges[0].function.params), vec![vec![0.5, 0.0], vec![0.0, 0.5]]);
    assert!(floats(&edges[1].function.params) != vec![vec![0.5, 0.0], vec![0.0, 0.5]]);
}

#[test]
fn edge_order_changes_nothing_but_rounding() {
    let build = |swap: bool| {
        let mut graph = Graph::new();
        let prior = graph.add_node(node("prior", vec![5.0, 5.0, 5.0, 5.0], true));
        let mu = graph.add_node(node("mu", vec![1.0, 1.0, 1.0], false));
        let data = graph.add_node(node("data", vec![10.0, 10.0, 10.0], true));
        if swap {
            graph.add_edge(mu, data, linear(Matrix::identity(3)));
            graph.add_edge(prior, mu, linear(truncation()));
        } else {
            graph.add_edge(prior, mu, linear(truncation()));
            graph.add_edge(mu, data, linear(Matrix::identity(3)));
        }
        graph.infer();
        value(&graph, mu)
    };
    assert_near(&build(false), &build(true), 1e-12);
    assert_near(&build(false), &[1.13, 1.13, 1.13], 1e-12);
}

#[test]
fn sweep_reads_the_nodes_as_they_were_before_it() {
    // a -> b -> c, all free: what b hands to c must come from the old b.
    let mut graph = Graph::new();
    let a = graph.add_node(node("a", vec![1.0], false));
    let b = graph.add_node(node("b", vec![2.0], false));
    let c = graph.add_node(node("c", vec![4.0], false));
    graph.add_edge(a, b, linear(Matrix::identity(1)));
    graph.add_edge(b, c, linear(Matrix::identity(1)));
    graph.infer();
    // a: + 0.01 * (b - a); b: + 0.01 * (a - b) + 0.01 * (c - b); c: + 0.01 * (b - c)
    assert_eq!(value(&graph, a), vec![1.0 + 1.0 * 0.01]);
    assert_eq!(value(&graph, b), vec![2.0 + -1.0 * 0.01 + 2.0 * 0.01]);
    assert_eq!(value(&graph, c), vec![4.0 + -2.0 * 0.01]);
}

#[test]
fn forward_keeps_the_last_edge_of_a_pair() {
    let mut graph = Graph::new();
    let x = graph.add_node(node("x", vec![1.0, 2.0], false));
    let t = graph.add_node(node("t", vec![0.0, 0.0], false));
    graph.add_edge(x, t, linear(matrix(vec![vec![1.0, 0.0], vec![0.0, 1.0]])));
    graph.add_edge(t, x, linear(matrix(vec![vec![3.0, 0.0], vec![0.0, 3.0]])));
    graph.add_edge(x, t, linear(matrix(vec![vec![2.0, 0.0], vec![0.0, 2.0]])));
    let preds = graph.forward();
    assert_eq!(preds.len(), 2);
    assert_eq!(floats(preds.get(&(x, t)).unwrap()), vec![vec![2.0, 4.0]]);
    assert_eq!(floats(preds.get(&(t, x)).unwrap()), vec![vec![0.0, 0.0]]);
    assert!(preds.get(&(x, x)).is_none());
}

#[test]
fn non_finite_values_propagate() {
    let a = matrix(vec![vec![f64::INFINITY, 1.0]]);
    let b = matrix(vec![vec![0.0], vec![2.0]]);
    let product = a.matmul(&b);
    assert!(floats(&product)[0][0].is_nan());
    let mut x = node("x", vec![1.0], false);
    x.update(&vec![matrix(vec![vec![f64::INFINITY]])]);
    assert_eq!(floats(&x.data), vec![vec![f64::INFINITY]]);
    x.update(&vec![matrix(vec![vec![f64::NEG_INFINITY]])]);
    assert!(floats(&x.data)[0][0].is_nan());
}

#[test]
fn generate_calls_the_sampler_row_by_row() {
    let counter = std::cell::Cell::new(0.0);
    let m = Matrix::generate(2, 3, || {
        counter.set(counter.get() + 1.0);
        Real(counter.get())
    });
    assert_eq!(floats(&m), vec![vec![1.0, 2.0, 3.0], vec![4.0, 5.0, 6.0]]);
    let none = Matrix::generate(0, 3, || Real(0.0));
    assert_eq!((none.rows, none.cols), (0, 3));
}
