//! The library over exact integers.

use predictive_coding::gaussian::function::GaussianFunction;
use predictive_coding::gaussian::variable::GaussianVariable;
use predictive_coding::graph::predictions::Predictions;
use predictive_coding::graph::{Function, Graph, Variable};
use predictive_coding::linalg::math::{Activation, ActivationFunction};
use predictive_coding::linalg::matrix::Matrix;
use predictive_coding::linalg::vector::Vector;
use predictive_coding::scalar::Scalar;
use predictive_coding::transform::{relu, relu_deriv};

fn sample_a() -> Matrix<i64> {
    Matrix::new(vec![vec![1, -2, 3], vec![4, 5, -6]])
}

fn sample_b() -> Matrix<i64> {
    Matrix::new(vec![vec![7, 8], vec![-9, 10], vec![11, 12]])
}

fn sample_c() -> Matrix<i64> {
    Matrix::new(vec![vec![2, 0, -1, 3], vec![1, 1, 4, -2]])
}

#[test]
fn integer_arithmetic_wraps() {
    assert_eq!(i64::MAX.plus(1), i64::MIN);
    assert_eq!(i64::MIN.minus(1), i64::MAX);
    assert_eq!(i64::MIN.negated(), i64::MIN);
    assert_eq!(5i64.negated(), -5);
    assert_eq!((1i64 << 62).times(4), 0);
    assert_eq!(3i64.times(-7), -21);
    assert_eq!(<i64 as Scalar>::zero(), 0);
    assert_eq!(<i64 as Scalar>::one(), 1);
}

#[test]
fn integer_step_rounds_toward_zero() {
    assert_eq!(250i64.step(), 2);
    assert_eq!((-250i64).step(), -2);
    assert_eq!(99i64.step(), 0);
    assert_eq!((-99i64).step(), 0);
    assert_eq!(0i64.step(), 0);
    assert_eq!(i64::MIN.step(), i64::MIN / 100);
}

#[test]
fn integer_order_and_closeness() {
    assert!(1i64.positive());
    assert!(!0i64.positive());
    assert!(!(-1i64).positive());
    assert!(4i64.close(4));
    assert!(!4i64.close(5));
}

#[test]
fn integer_samples_fill_the_shape() {
    let m = Matrix::<i64>::random(3, 5);
    assert_eq!((m.rows, m.cols), (3, 5));
    assert_eq!(m.data.len(), 3);
    assert!(m.data.iter().all(|row| row.len() == 5));
    let other = Matrix::<i64>::random(3, 5);
    assert!(m.data != other.data);
    assert_eq!(Vector::<i64>::random(4).data.len(), 4);
}

#[test]
fn new_takes_its_shape_from_the_rows() {
    let m = sample_a();
    assert_eq!((m.rows, m.cols), (2, 3));
    let empty = Matrix::<i64>::new(vec![]);
    assert_eq!((empty.rows, empty.cols), (0, 0));
    assert!(empty.data.is_empty());
}

#[test]
fn identity_has_ones_on_the_diagonal() {
    let id = Matrix::<i64>::identity(3);
    assert_eq!(id.data, vec![vec![1, 0, 0], vec![0, 1, 0], vec![0, 0, 1]]);
    assert_eq!((id.rows, id.cols), (3, 3));
    let none = Matrix::<i64>::identity(0);
    assert_eq!((none.rows, none.cols), (0, 0));
}

#[test]
fn matmul_is_associative() {
    let left = sample_a().matmul(&sample_b()).matmul(&sample_c());
    let right = sample_a().matmul(&sample_b().matmul(&sample_c()));
    assert_eq!(left.data, right.data);
    assert_eq!(sample_a().matmul(&sample_b()).data, vec![vec![58, 24], vec![-83, 10]]);
}

#[test]
fn identity_is_neutral() {
    let a = sample_a();
    assert_eq!(a.matmul(&Matrix::identity(3)).data, a.data);
    assert_eq!(Matrix::identity(2).matmul(&a).data, a.data);
}

#[test]
fn transpose_twice_is_the_matrix() {
    let a = sample_a();
    assert_eq!(a.transpose().data, vec![vec![1, 4], vec![-2, 5], vec![3, -6]]);
    assert_eq!(a.transpose().transpose().data, a.data);
    let flat = Matrix::<i64>::zeros(0, 5);
    let upright = flat.transpose();
    assert_eq!((upright.rows, upright.cols), (5, 0));
    let back = upright.transpose();
    assert_eq!((back.rows, back.cols), (0, 5));
}

#[test]
fn transpose_of_a_product() {
    let left = sample_a().matmul(&sample_b()).transpose();
    let right = sample_b().transpose().matmul(&sample_a().transpose());
    assert_eq!(left.data, right.data);
}

#[test]
fn addition_commutes_and_subtraction_cancels() {
    let a = sample_a();
    let b = Matrix::new(vec![vec![10, 20, 30], vec![-40, -50, -60]]);
    assert_eq!(a.add(&b).data, b.add(&a).data);
    assert_eq!(a.add(&b).data, vec![vec![11, 18, 33], vec![-36, -45, -66]]);
    assert_eq!(a.sub(&a).data, Matrix::<i64>::zeros(2, 3).data);
    assert_eq!(a.sub(&b).data, vec![vec![-9, -22, -27], vec![44, 55, 54]]);
}

#[test]
fn axis_sums_have_one_total() {
    let a = sample_a();
    let columns = a.sum(0);
    let rows = a.sum(1);
    assert_eq!(columns.size, a.cols);
    assert_eq!(rows.size, a.rows);
    assert_eq!(columns.data, vec![5, 3, -3]);
    assert_eq!(rows.data, vec![2, 3]);
    assert_eq!(columns.data.iter().sum::<i64>(), rows.data.iter().sum::<i64>());
    let empty = Matrix::<i64>::zeros(0, 4);
    assert_eq!(empty.sum(0).data, vec![0, 0, 0, 0]);
    assert!(empty.sum(1).data.is_empty());
}

#[test]
fn in_place_operations_match_the_allocating_ones() {
    let b = Matrix::new(vec![vec![10, 20, 30], vec![-40, -50, -60]]);
    let mut a = sample_a();
    a.add_assign(&b);
    assert_eq!(a.data, sample_a().add(&b).data);
    a.sub_assign(&b);
    assert_eq!(a.data, sample_a().data);
    let mut v = Vector::new(vec![1i64, 2, 3]);
    v.add_assign(&Vector::new(vec![10, 20, 30]));
    assert_eq!(v.data, vec![11, 22, 33]);
    assert_eq!(v.size, 3);
}

#[test]
fn apply_maps_every_entry() {
    let a = sample_a();
    let doubled = a.apply(|x| x * 2);
    assert_eq!(doubled.data, vec![vec![2, -4, 6], vec![8, 10, -12]]);
    assert_eq!((doubled.rows, doubled.cols), (2, 3));
    let none = Matrix::<i64>::zeros(0, 3).apply(|x| x + 1);
    assert_eq!((none.rows, none.cols), (0, 3));
    let v = Vector::new(vec![1i64, -1]).apply(|x| x - 1);
    assert_eq!(v.data, vec![0, -2]);
}

#[test]
fn clones_are_equal_and_apart() {
    let a = sample_a();
    let mut b = a.clone();
    assert!(a == b);
    b.data[0][0] = 100;
    assert!(a != b);
    assert_eq!(a.data[0][0], 1);
    let v = Vector::new(vec![1i64, 2]);
    let w = v.clone();
    assert_eq!((w.size, w.data), (2, vec![1, 2]));
    let x = GaussianVariable::new("x", Matrix::<i64>::ones(1, 2), true);
    let y = x.clone();
    assert_eq!((y.name.as_str(), y.size, y.fixed), ("x", 2, true));
    assert_eq!(y.data.data, vec![vec![1, 1]]);
}

#[test]
fn vectors_of_ones_and_zeros() {
    assert_eq!(Vector::<i64>::ones(3).data, vec![1, 1, 1]);
    assert_eq!(Vector::<i64>::zeros(2).data, vec![0, 0]);
    assert_eq!(Vector::<i64>::zeros(0).size, 0);
}

#[test]
fn rectifier_on_integers() {
    assert_eq!(relu(-3i64), 0);
    assert_eq!(relu(0i64), 0);
    assert_eq!(relu(8i64), 8);
    assert_eq!(relu_deriv(-3i64), 0);
    assert_eq!(relu_deriv(0i64), 0);
    assert_eq!(relu_deriv(8i64), 1);
    let relu_kind = ActivationFunction::new(Activation::ReLU);
    let m = Matrix::new(vec![vec![-1i64, 0, 5]]);
    assert_eq!(relu_kind.forward(&m).data, vec![vec![0, 0, 5]]);
    assert_eq!(relu_kind.backward(&m).data, vec![vec![0, 0, 1]]);
    let linear_kind = ActivationFunction::new(Activation::Linear);
    assert_eq!(linear_kind.forward(&m).data, m.data);
    assert_eq!(linear_kind.backward(&m).data, vec![vec![1, 1, 1]]);
}

#[test]
fn variable_setters() {
    let mut x = GaussianVariable::new("x", Matrix::new(vec![vec![1i64, 2, 3]]), false);
    assert_eq!(x.size, 3);
    assert_eq!(x.name, "x");
    x.set_data(Matrix::new(vec![vec![7, 8, 9]]));
    assert_eq!(x.data.data, vec![vec![7, 8, 9]]);
    assert_eq!(x.size, 3);
}

#[test]
fn fixed_variable_ignores_updates() {
    let mut x = GaussianVariable::new("x", Matrix::new(vec![vec![1i64, 2]]), true);
    x.update(&vec![Matrix::new(vec![vec![1000, 1000]])]);
    assert_eq!(x.data.data, vec![vec![1, 2]]);
    let mut y = GaussianVariable::new("y", Matrix::new(vec![vec![1i64, 2]]), false);
    y.update(&vec![Matrix::new(vec![vec![1000, -250]]), Matrix::new(vec![vec![99, 100]])]);
    assert_eq!(y.data.data, vec![vec![11, 1]]);
    y.update(&vec![]);
    assert_eq!(y.data.data, vec![vec![11, 1]]);
}

#[test]
fn exact_prediction_is_a_fixed_point() {
    let mut graph = Graph::new();
    let x = graph.add_node(GaussianVariable::new("x", Matrix::new(vec![vec![3i64, -4]]), false));
    let t = graph.add_node(GaussianVariable::new("t", Matrix::new(vec![vec![-10, 1]]), false));
    let weights = Matrix::new(vec![vec![2i64, 3], vec![4, 2]]);
    graph.add_edge(x, t, GaussianFunction::new(weights, Activation::Linear, false));
    for _ in 0..5 {
        graph.infer();
        graph.learn();
    }
    assert_eq!(graph.get_node(x).unwrap().data.data, vec![vec![3, -4]]);
    assert_eq!(graph.get_node(t).unwrap().data.data, vec![vec![-10, 1]]);
    let edge = graph.get_edges().next().unwrap();
    assert_eq!(edge.function.params.data, vec![vec![2, 3], vec![4, 2]]);
}

#[test]
fn sweep_on_integers() {
    let mut graph = Graph::new();
    let x = graph.add_node(GaussianVariable::new("x", Matrix::new(vec![vec![100i64, 200]]), false));
    let t = graph.add_node(GaussianVariable::new("t", Matrix::new(vec![vec![1100i64, 200]]), false));
    graph.add_edge(x, t, GaussianFunction::new(Matrix::identity(2), Activation::Linear, false));
    graph.infer();
    // e = t - x = [1000, 0]: x moves by 10, t moves by -10
    assert_eq!(graph.get_node(x).unwrap().data.data, vec![vec![110, 200]]);
    assert_eq!(graph.get_node(t).unwrap().data.data, vec![vec![1090, 200]]);
    graph.learn();
    // e = [980, 0]; dW = xᵀ · e = [[107800, 0], [196000, 0]]
    let edge = graph.get_edges().next().unwrap();
    assert_eq!(edge.function.params.data, vec![vec![1 + 1078, 0], vec![1960, 1]]);
}

#[test]
fn self_loop_hands_the_target_derivative_first() {
    let mut graph = Graph::new();
    let x = graph.add_node(GaussianVariable::new("x", Matrix::new(vec![vec![1000i64]]), false));
    graph.add_edge(x, x, GaussianFunction::new(Matrix::new(vec![vec![3i64]]), Activation::Linear, false));
    graph.infer();
    // prediction 3000, e = -2000: target gets 2000, source gets e * 3 = -6000
    assert_eq!(graph.get_node(x).unwrap().data.data, vec![vec![1000 + 20 - 60]]);
}

#[test]
fn graph_indices_follow_insertion() {
    let mut graph: Graph<GaussianVariable<i64>, GaussianFunction<i64>> = Graph::new();
    assert!(graph.get_node(0).is_none());
    let a = graph.add_node(GaussianVariable::new("a", Matrix::ones(1, 2), false));
    let b = graph.add_node(GaussianVariable::new("b", Matrix::ones(1, 3), false));
    assert_eq!((a, b), (0, 1));
    let first = graph.add_edge(a, b, GaussianFunction::new(Matrix::zeros(2, 3), Activation::Linear, false));
    assert_eq!(first, 0);
    let more = graph.add_edges(vec![
        (b, a, GaussianFunction::new(Matrix::zeros(3, 2), Activation::ReLU, false)),
        (a, a, GaussianFunction::new(Matrix::zeros(2, 2), Activation::Linear, true)),
    ]);
    assert_eq!(more, vec![1, 2]);
    assert!(graph.add_edges(vec![]).is_empty());
    let names: Vec<&str> = graph.get_nodes().map(|n| n.name.as_str()).collect();
    assert_eq!(names, vec!["a", "b"]);
    let ends: Vec<(usize, usize)> = graph.get_edges().map(|e| (e.source, e.target)).collect();
    assert_eq!(ends, vec![(0, 1), (1, 0), (0, 0)]);
    assert_eq!(graph.get_node(b).unwrap().size, 3);
    assert!(graph.get_node(2).is_none());
    assert!(graph.get_node_mut(2).is_none());
    graph.get_node_mut(a).unwrap().set_data(Matrix::new(vec![vec![5, 6]]));
    assert_eq!(graph.get_node(a).unwrap().data.data, vec![vec![5, 6]]);
}

#[test]
fn predictions_table() {
    let mut table: Predictions<i64> = Predictions::new();
    assert_eq!(table.len(), 0);
    assert!(table.get(&(0, 1)).is_none());
    table.insert((0, 1), Matrix::ones(1, 2));
    table.insert((1, 0), Matrix::zeros(1, 3));
    table.insert((0, 1), Matrix::new(vec![vec![9, 9]]));
    assert_eq!(table.len(), 2);
    assert_eq!(table.get(&(0, 1)).unwrap().data, vec![vec![9, 9]]);
    assert_eq!(table.get(&(1, 0)).unwrap().data, vec![vec![0, 0, 0]]);
    assert!(table.get(&(1, 1)).is_none());
}

#[test]
fn bias_rides_on_the_prediction() {
    let f = GaussianFunction::with_bias(
        Matrix::new(vec![vec![1i64, 2], vec![3, 4]]),
        Vector::new(vec![100, -100]),
        Activation::Linear,
        false,
    );
    let x = GaussianVariable::new("x", Matrix::new(vec![vec![1i64, 1]]), true);
    let t = GaussianVariable::new("t", Matrix::new(vec![vec![0i64, 0]]), true);
    assert_eq!(f.forward(&x).data, vec![vec![104, -94]]);
    let (d_source, d_target) = f.backward(&x, &t);
    assert_eq!(d_target.data, vec![vec![104, -94]]);
    // e = [-104, 94]; e · Wᵀ = [-104 + 188, -312 + 376]
    assert_eq!(d_source.data, vec![vec![84, 64]]);
    let (dw, db) = f.backward_params(&x, &t);
    assert_eq!(dw.data, vec![vec![-104, 94], vec![-104, 94]]);
    assert_eq!(db.data, vec![-104, 94]);
}

#[test]
fn cycles_are_harmless() {
    let mut graph = Graph::new();
    let a = graph.add_node(GaussianVariable::new("a", Matrix::new(vec![vec![100i64]]), false));
    let b = graph.add_node(GaussianVariable::new("b", Matrix::new(vec![vec![300i64]]), false));
    graph.add_edge(a, b, GaussianFunction::new(Matrix::identity(1), Activation::Linear, false));
    graph.add_edge(b, a, GaussianFunction::new(Matrix::identity(1), Activation::Linear, false));
    graph.infer();
    // each edge asks a to rise by 200 and b to fall by 200
    assert_eq!(graph.get_node(a).unwrap().data.data, vec![vec![104]]);
    assert_eq!(graph.get_node(b).unwrap().data.data, vec![vec![296]]);
}
