//! Sweeps in two phases, over exact integers.

use predictive_coding::graph::Graph;
use predictive_coding::infer::transform::Transform;
use predictive_coding::infer::variable::Variable;
use predictive_coding::infer::{apply_deltas, apply_param_deltas, forward, forward_params};
use predictive_coding::linalg::math::Activation;
use predictive_coding::linalg::matrix::Matrix;

type Net = Graph<Variable<i64>, Transform<i64>>;

fn row(values: Vec<i64>) -> Matrix<i64> {
    Matrix::new(vec![values])
}

fn value(graph: &Net, index: usize) -> Vec<i64> {
    graph.get_node(index).unwrap().data.data[0].clone()
}

fn chain() -> Net {
    let mut graph = Graph::new();
    let a = graph.add_node(Variable::new("a", row(vec![1000, 0]), true));
    let b = graph.add_node(Variable::new("b", row(vec![400, 600]), false));
    let c = graph.add_node(Variable::new("c", row(vec![0, 2000]), false));
    graph.add_edge(a, b, Transform::new(Matrix::identity(2), Activation::Linear, false));
    graph.add_edge(b, c, Transform::new(Matrix::new(vec![vec![2, 0], vec![0, 1]]), Activation::Linear, true));
    graph
}

#[test]
fn transform_on_a_given_error() {
    let f = Transform::new(Matrix::new(vec![vec![1i64, 2, 0], vec![0, -1, 3]]), Activation::ReLU, false);
    let x = Variable::new("x", row(vec![2, 5]), false);
    // x · W = [2, -1, 15]; relu = [2, 0, 15]; slope = [1, 0, 1]
    assert_eq!(f.forward(&x).data, vec![vec![2, 0, 15]]);
    let err = row(vec![10, 20, 30]);
    // err ⊙ slope = [10, 0, 30]; times Wᵀ = [10, 90]
    assert_eq!(f.backward(&x, &err).data, vec![vec![10, 90]]);
    // xᵀ · [10, 0, 30]
    assert_eq!(f.backward_params(&x, &err).data, vec![vec![20, 0, 60], vec![50, 0, 150]]);
}

#[test]
fn deltas_are_summed_for_each_node() {
    let graph = chain();
    let deltas = forward(&graph);
    assert_eq!(deltas.len(), 3);
    // edge a -> b: error = b - a = [-600, 600]; a is pulled by it, b gives it up
    // edge b -> c: prediction = [800, 600]; error = c - prediction = [-800, 1400]
    //   b is pulled by error · Wᵀ = [-1600, 1400], c gives the error up
    assert_eq!(deltas[&0].data, vec![vec![-600, 600]]);
    assert_eq!(deltas[&1].data, vec![vec![600 - 1600, -600 + 1400]]);
    assert_eq!(deltas[&2].data, vec![vec![800, -1400]]);
}

#[test]
fn deltas_move_the_free_nodes() {
    let mut graph = chain();
    let deltas = forward(&graph);
    apply_deltas(&mut graph, deltas);
    assert_eq!(value(&graph, 0), vec![1000, 0]);
    assert_eq!(value(&graph, 1), vec![400 - 10, 600 + 8]);
    assert_eq!(value(&graph, 2), vec![8, 2000 - 14]);
}

#[test]
fn untouched_nodes_have_no_delta() {
    let mut graph = chain();
    let lone = graph.add_node(Variable::new("lone", row(vec![7]), false));
    let deltas = forward(&graph);
    assert!(!deltas.contains_key(&lone));
    apply_deltas(&mut graph, deltas);
    assert_eq!(value(&graph, lone), vec![7]);
    let empty: Net = Graph::new();
    assert!(forward(&empty).is_empty());
    assert!(forward_params(&empty).is_empty());
}

#[test]
fn summing_first_rounds_once() {
    // Two edges ask 50 each of one node: the sum steps by one, the parts by nothing.
    let build = || {
        let mut graph: Net = Graph::new();
        let x = graph.add_node(Variable::new("x", row(vec![0]), false));
        let up = graph.add_node(Variable::new("up", row(vec![50]), true));
        graph.add_edge(x, up, Transform::new(Matrix::identity(1), Activation::Linear, true));
        graph.add_edge(x, up, Transform::new(Matrix::identity(1), Activation::Linear, true));
        graph
    };
    let mut summed = build();
    let deltas = forward(&summed);
    assert_eq!(deltas[&0].data, vec![vec![100]]);
    apply_deltas(&mut summed, deltas);
    assert_eq!(value(&summed, 0), vec![1]);
    let mut stepped = build();
    stepped.infer();
    assert_eq!(value(&stepped, 0), vec![0]);
}

#[test]
fn parameter_deltas_move_the_free_edges() {
    let mut graph = chain();
    let deltas = forward_params(&graph);
    assert_eq!(deltas.len(), 2);
    // edge 0: aᵀ · [-600, 600]; edge 1: bᵀ · [-800, 1400]
    assert_eq!(deltas[&0].data, vec![vec![-600000, 600000], vec![0, 0]]);
    assert_eq!(deltas[&1].data, vec![vec![-320000, 560000], vec![-480000, 840000]]);
    apply_param_deltas(&mut graph, deltas);
    let edges: Vec<_> = graph.get_edges().collect();
    assert_eq!(edges[0].function.params.data, vec![vec![1 - 6000, 6000], vec![0, 1]]);
    assert_eq!(edges[1].function.params.data, vec![vec![2, 0], vec![0, 1]]);
    assert_eq!(value(&graph, 1), vec![400, 600]);
    assert_eq!(graph.get_edge(1).unwrap().source, 1);
    assert!(graph.get_edge(2).is_none());
    assert!(graph.get_edge_mut(2).is_none());
}

#[test]
fn plain_transform_on_the_one_phase_sweeps() {
    let mut graph = chain();
    graph.infer();
    // b takes -(-600, 600) / 100 as target, then (-1600, 1400) / 100 as source
    assert_eq!(value(&graph, 1), vec![400 + 6 - 16, 600 - 6 + 14]);
    assert_eq!(value(&graph, 0), vec![1000, 0]);
    assert_eq!(value(&graph, 2), vec![8, 2000 - 14]);
    let preds = graph.forward();
    assert_eq!(preds.get(&(0, 1)).unwrap().data, vec![vec![1000, 0]]);
    graph.learn();
    let edges: Vec<_> = graph.get_edges().collect();
    assert_eq!(edges[1].function.params.data, vec![vec![2, 0], vec![0, 1]]);
    assert!(edges[0].function.params.data != vec![vec![1, 0], vec![0, 1]]);
}
