//! What holds of the derivatives of an edge and of the two sweeps.

use crate::gaussian::function::{FunctionView, GaussianFunction};
use crate::gaussian::variable::{moved, GaussianVariable, VariableView};
use crate::graph::{Edge, Function, GraphView, Variable};
use crate::integer::lemma_step_toward;
use crate::linalg::laws::{lemma_equal_by_entries, lemma_matmul_identity};
use crate::linalg::model::{plus_seq, stepped_seq, MatrixView};
use crate::linalg::sums::lemma_sum_of_zeros;
use crate::scalar::{lemma_minus_self, lemma_negated_minus, lemma_times_zero, Ring, Scalar};
use vstd::math::abs;
use vstd::prelude::*;
use vstd::seq_lib::{commutative_foldl, lemma_fold_left_permutation};

verus! {

/// `f` can stand on an edge from a source with value `x` to a target with
/// value `t`: both are rows, and their sizes are those of the weights.
pub open spec fn joins<S: Scalar>(f: FunctionView<S>, x: MatrixView<S>, t: MatrixView<S>) -> bool {
    &&& f.wf()
    &&& x.wf()
    &&& t.wf()
    &&& x.rows == 1
    &&& t.rows == 1
    &&& x.cols == f.params.rows
    &&& t.cols == f.params.cols
}

/// The prediction has the shape of the target.
pub proof fn lemma_prediction_shape<S: Scalar>(f: FunctionView<S>, x: MatrixView<S>, t: MatrixView<S>)
    requires
        joins(f, x, t),
    ensures
        f.pre_activation(x).wf(),
        f.pre_activation(x).same_shape(t),
        f.prediction(x).wf(),
        f.prediction(x).same_shape(t),
        f.error(x, t).wf(),
        f.error(x, t).same_shape(t),
{
}

/// The derivative for the target is the prediction minus the target, whatever
/// the activation and the bias are.
pub proof fn lemma_target_derivative<S: Ring>(f: FunctionView<S>, x: MatrixView<S>, t: MatrixView<S>)
    requires
        joins(f, x, t),
    ensures
        f.target_derivative(x, t) == f.prediction(x).minus(t),
{
    lemma_prediction_shape(f, x, t);
    let y = f.prediction(x);
    assert forall|i: int, j: int| 0 <= i < t.rows && 0 <= j < t.cols implies f.target_derivative(
        x,
        t,
    ).at(i, j) == y.minus(t).at(i, j) by {
        lemma_negated_minus(t.at(i, j), y.at(i, j));
    }
    lemma_equal_by_entries(f.target_derivative(x, t), y.minus(t));
}

/// With the linear activation and no bias, the prediction is `x · W`, the
/// derivative for the target is `x · W − t`, and the derivative for the source
/// is `(t − x · W) · Wᵀ`.
pub proof fn lemma_linear_edge<S: Ring>(f: FunctionView<S>, x: MatrixView<S>, t: MatrixView<S>)
    requires
        joins(f, x, t),
        f.activation.kind() is Linear,
        f.bias is None,
    ensures
        f.prediction(x) == x.matmul(f.params),
        f.target_derivative(x, t) == x.matmul(f.params).minus(t),
        f.source_derivative(x, t) == t.minus(x.matmul(f.params)).matmul(f.params.transposed()),
{
    lemma_prediction_shape(f, x, t);
    lemma_target_derivative(f, x, t);
    let e = f.error(x, t);
    assert forall|i: int, j: int| 0 <= i < e.rows && 0 <= j < e.cols implies f.delta(x, t).at(i, j)
        == e.at(i, j) by {
        S::times_one(e.at(i, j));
    }
    lemma_equal_by_entries(f.delta(x, t), e);
}

/// Where the prediction is the target, both derivatives of the edge are zero,
/// and so are the derivatives for its parameters.
pub proof fn lemma_exact_prediction<S: Ring>(f: FunctionView<S>, x: MatrixView<S>, t: MatrixView<S>)
    requires
        joins(f, x, t),
        f.prediction(x) == t,
    ensures
        f.source_derivative(x, t) == MatrixView::<S>::zeros(1, x.cols),
        f.target_derivative(x, t) == MatrixView::<S>::zeros(1, t.cols),
        f.weight_derivative(x, t) == MatrixView::<S>::zeros(x.cols, t.cols),
        f.bias_derivative(x, t) == Seq::new(t.cols, |j: int| S::zero_spec()),
{
    lemma_prediction_shape(f, x, t);
    lemma_target_derivative(f, x, t);
    let zero = S::zero_spec();
    let e = f.error(x, t);
    let d = f.delta(x, t);
    let slope = f.activation.backward_spec(f.pre_activation(x));
    assert forall|i: int, j: int| 0 <= i < e.rows && 0 <= j < e.cols implies e.at(i, j) == zero by {
        lemma_minus_self(t.at(i, j));
    }
    assert forall|i: int, j: int| 0 <= i < e.rows && 0 <= j < e.cols implies d.at(i, j) == zero by {
        lemma_times_zero(slope.at(i, j));
    }
    let ds = f.source_derivative(x, t);
    let wt = f.params.transposed();
    assert forall|i: int, j: int| 0 <= i < 1 && 0 <= j < x.cols implies ds.at(i, j) == zero by {
        let terms = d.dot_terms(wt, i, j);
        assert forall|k: int| 0 <= k < d.cols implies #[trigger] terms(k) == zero by {
            lemma_times_zero(wt.at(k, j));
        }
        lemma_sum_of_zeros(d.cols, terms);
    }
    lemma_equal_by_entries(ds, MatrixView::<S>::zeros(1, x.cols));
    let dt = f.target_derivative(x, t);
    lemma_equal_by_entries(dt, MatrixView::<S>::zeros(1, t.cols));
    let dw = f.weight_derivative(x, t);
    let xt = x.transposed();
    assert forall|i: int, j: int| 0 <= i < x.cols && 0 <= j < t.cols implies dw.at(i, j)
        == zero by {
        let terms = xt.dot_terms(d, i, j);
        assert forall|k: int| 0 <= k < xt.cols implies #[trigger] terms(k) == zero by {
            lemma_times_zero(xt.at(i, k));
        }
        lemma_sum_of_zeros(xt.cols, terms);
    }
    lemma_equal_by_entries(dw, MatrixView::<S>::zeros(x.cols, t.cols));
    let db = f.bias_derivative(x, t);
    assert forall|j: int| 0 <= j < t.cols implies #[trigger] db[j] == zero by {
        let terms = e.column(j);
        lemma_sum_of_zeros(e.rows, terms);
    }
}

/// A row that moves along zero derivatives stays where it is.
pub proof fn lemma_moved_by_zeros<S: Ring>(data: MatrixView<S>, derivatives: Seq<MatrixView<S>>)
    requires
        data.wf(),
        forall|k: int|
            0 <= k < derivatives.len() ==> #[trigger] derivatives[k] == MatrixView::<S>::zeros(
                data.rows,
                data.cols,
            ),
    ensures
        moved(data, derivatives) == data,
    decreases derivatives.len(),
{
    if derivatives.len() > 0 {
        lemma_moved_by_zeros(data, derivatives.drop_last());
        let last = derivatives.last();
        let next = data.plus(last.stepped());
        assert forall|i: int, j: int| 0 <= i < data.rows && 0 <= j < data.cols implies next.at(i, j)
            == data.at(i, j) by {
            S::step_zero();
            S::plus_zero(data.at(i, j));
        }
        lemma_equal_by_entries(next, data);
    }
}

/// A fixed variable is not changed by an update, whatever the derivatives are.
pub proof fn lemma_fixed_variable<S: Scalar>(v: VariableView<S>, derivatives: Seq<MatrixView<S>>)
    requires
        v.fixed,
    ensures
        v.updated(derivatives) == v,
{
}

/// A fixed transform is not changed by an update of its parameters, whatever
/// the derivatives are.
pub proof fn lemma_fixed_function<S: Scalar>(f: FunctionView<S>, dw: MatrixView<S>, db: Seq<S>)
    requires
        f.fixed,
    ensures
        f.adjusted(dw, db) == f,
{
}

/// The graphs `states[0]`, `states[1]`, ... follow one another by sweeps of
/// inference.
pub open spec fn inference_run<S: Scalar>(
    states: Seq<GraphView<GaussianVariable<S>, GaussianFunction<S>>>,
) -> bool {
    forall|k: int| 0 <= k < states.len() - 1 ==> (#[trigger] states[k]).inferred(states[k + 1])
}

/// The graphs `states[0]`, `states[1]`, ... follow one another by sweeps of
/// learning.
pub open spec fn learning_run<S: Scalar>(
    states: Seq<GraphView<GaussianVariable<S>, GaussianFunction<S>>>,
) -> bool {
    forall|k: int| 0 <= k < states.len() - 1 ==> (#[trigger] states[k]).learned(states[k + 1])
}

/// Any number of sweeps of inference leaves a fixed variable exactly as it was,
/// and leaves every edge as it was.
pub proof fn lemma_inference_keeps_fixed<S: Scalar>(
    states: Seq<GraphView<GaussianVariable<S>, GaussianFunction<S>>>,
    i: int,
)
    requires
        states.len() > 0,
        inference_run(states),
        0 <= i < states[0].nodes.len(),
        states[0].nodes[i].fixed,
    ensures
        states.last().nodes.len() == states[0].nodes.len(),
        states.last().nodes[i]@ == states[0].nodes[i]@,
        states.last().edges == states[0].edges,
    decreases states.len(),
{
    if states.len() > 1 {
        let shorter = states.drop_last();
        assert forall|k: int| 0 <= k < shorter.len() - 1 implies (#[trigger] shorter[k]).inferred(
            shorter[k + 1],
        ) by {
            assert(states[k].inferred(states[k + 1]));
        }
        lemma_inference_keeps_fixed(shorter, i);
        let before = states[states.len() - 2];
        assert(before.inferred(states[states.len() - 1]));
        assert(before == shorter.last());
        assert(before.nodes[i].updated(before.derivatives_for(i), &states.last().nodes[i]));
    }
}

/// Any number of sweeps of learning leaves a fixed transform exactly as it
/// was, and leaves every node as it was.
pub proof fn lemma_learning_keeps_fixed<S: Scalar>(
    states: Seq<GraphView<GaussianVariable<S>, GaussianFunction<S>>>,
    k: int,
)
    requires
        states.len() > 0,
        learning_run(states),
        0 <= k < states[0].edges.len(),
        states[0].edges[k].function.fixed,
    ensures
        states.last().edges.len() == states[0].edges.len(),
        states.last().edges[k].function@ == states[0].edges[k].function@,
        states.last().edges[k].source == states[0].edges[k].source,
        states.last().edges[k].target == states[0].edges[k].target,
        states.last().nodes == states[0].nodes,
    decreases states.len(),
{
    if states.len() > 1 {
        let shorter = states.drop_last();
        assert forall|l: int| 0 <= l < shorter.len() - 1 implies (#[trigger] shorter[l]).learned(
            shorter[l + 1],
        ) by {
            assert(states[l].learned(states[l + 1]));
        }
        lemma_learning_keeps_fixed(shorter, k);
        let before = states[states.len() - 2];
        assert(before.learned(states[states.len() - 1]));
        assert(before == shorter.last());
        let e = before.edges[k];
        assert(e.function.updated(before.parameter_derivatives(k), &states.last().edges[k].function));
    }
}

/// `data` after a step along `d`, if `taken`; `data` itself, if not.
pub open spec fn moved_if<S: Scalar>(taken: bool, data: MatrixView<S>, d: MatrixView<S>) -> MatrixView<S> {
    if taken {
        data.plus(d.stepped())
    } else {
        data
    }
}

/// The value `data` of node `i` after it has taken what edge `e` hands to it:
/// the derivative for the target if the edge ends at `i`, then the derivative
/// for the source if the edge starts at `i`.
pub open spec fn moved_by_edge<S: Scalar>(
    nodes: Seq<GaussianVariable<S>>,
    i: int,
    data: MatrixView<S>,
    e: Edge<GaussianFunction<S>>,
) -> MatrixView<S> {
    let d = e.function.backward_spec(&nodes[e.source as int], &nodes[e.target as int]);
    moved_if(e.source == i, moved_if(e.target == i, data, d.1), d.0)
}

/// Two steps of a row, each taken or not, can come in either order.
pub proof fn lemma_steps_commute<S: Ring>(
    data: MatrixView<S>,
    first: bool,
    a: MatrixView<S>,
    second: bool,
    b: MatrixView<S>,
)
    ensures
        moved_if(second, moved_if(first, data, a), b) == moved_if(
            first,
            moved_if(second, data, b),
            a,
        ),
{
    if first && second {
        let left = data.plus(a.stepped()).plus(b.stepped());
        let right = data.plus(b.stepped()).plus(a.stepped());
        assert forall|i: int, j: int| 0 <= i < data.rows && 0 <= j < data.cols implies left.at(i, j)
            == right.at(i, j) by {
            let x = data.at(i, j);
            let u = a.stepped().at(i, j);
            let v = b.stepped().at(i, j);
            S::plus_associates(x, u, v);
            S::plus_associates(x, v, u);
            S::plus_commutes(u, v);
        }
        lemma_equal_by_entries(left, right);
    }
}

/// What two edges hand to a node can be taken in either order.
pub proof fn lemma_edges_commute<S: Ring>(nodes: Seq<GaussianVariable<S>>, i: int)
    ensures
        commutative_foldl(
            |data: MatrixView<S>, e: Edge<GaussianFunction<S>>| moved_by_edge(nodes, i, data, e),
        ),
{
    let f = |data: MatrixView<S>, e: Edge<GaussianFunction<S>>| moved_by_edge(nodes, i, data, e);
    assert forall|x: Edge<GaussianFunction<S>>, y: Edge<GaussianFunction<S>>, v: MatrixView<S>|
        #[trigger] f(f(v, x), y) == f(f(v, y), x) by {
        let dx = x.function.backward_spec(&nodes[x.source as int], &nodes[x.target as int]);
        let dy = y.function.backward_spec(&nodes[y.source as int], &nodes[y.target as int]);
        let xt = x.target == i;
        let xs = x.source == i;
        let yt = y.target == i;
        let ys = y.source == i;
        let v1 = moved_if(xt, v, dx.1);
        let w1 = moved_if(yt, v, dy.1);
        // the step to the target of y moves before both steps of x
        lemma_steps_commute(v1, xs, dx.0, yt, dy.1);
        lemma_steps_commute(v, xt, dx.1, yt, dy.1);
        // the step to the source of y moves before both steps of x
        lemma_steps_commute(moved_if(yt, v1, dy.1), xs, dx.0, ys, dy.0);
        lemma_steps_commute(w1, xt, dx.1, ys, dy.0);
    }
}

/// A row moved along one more derivative is the row moved along the others,
/// then stepped along that one.
pub proof fn lemma_moved_push<S: Scalar>(
    data: MatrixView<S>,
    derivatives: Seq<MatrixView<S>>,
    d: MatrixView<S>,
)
    ensures
        moved(data, derivatives.push(d)) == moved(data, derivatives).plus(d.stepped()),
{
    assert(derivatives.push(d).drop_last() =~= derivatives);
}

/// The value of a node after it has taken the derivatives of the first
/// `count` edges in order is its value after it has taken, edge by edge, what
/// each of those edges hands to it.
pub proof fn lemma_moved_edge_by_edge<S: Scalar>(
    g: GraphView<GaussianVariable<S>, GaussianFunction<S>>,
    count: nat,
    i: int,
    data: MatrixView<S>,
)
    requires
        count <= g.edges.len(),
    ensures
        moved(data, g.derivatives_through(count, i)) == g.edges.take(count as int).fold_left(
            data,
            |data: MatrixView<S>, e: Edge<GaussianFunction<S>>| moved_by_edge(g.nodes, i, data, e),
        ),
    decreases count,
{
    if count > 0 {
        let before = g.derivatives_through((count - 1) as nat, i);
        let e = g.edges[count - 1];
        let d = e.function.backward_spec(&g.nodes[e.source as int], &g.nodes[e.target as int]);
        lemma_moved_edge_by_edge(g, (count - 1) as nat, i, data);
        assert(g.edges.take(count as int).drop_last() =~= g.edges.take(count - 1));
        lemma_moved_push(data, before, d.1);
        lemma_moved_push(data, before, d.0);
        lemma_moved_push(data, before.push(d.1), d.0);
    }
}

/// The order in which the edges were added does not matter to a sweep of
/// inference: two graphs with the same nodes and the same edges, in whatever
/// order, have the same node values after one sweep.
pub proof fn lemma_inference_ignores_edge_order<S: Ring>(
    first: GraphView<GaussianVariable<S>, GaussianFunction<S>>,
    second: GraphView<GaussianVariable<S>, GaussianFunction<S>>,
    first_after: GraphView<GaussianVariable<S>, GaussianFunction<S>>,
    second_after: GraphView<GaussianVariable<S>, GaussianFunction<S>>,
    i: int,
)
    requires
        first.nodes == second.nodes,
        first.edges.to_multiset() == second.edges.to_multiset(),
        first.inferred(first_after),
        second.inferred(second_after),
        0 <= i < first.nodes.len(),
    ensures
        first_after.nodes[i]@ == second_after.nodes[i]@,
{
    let node = first.nodes[i];
    if !node.fixed {
        let f = |data: MatrixView<S>, e: Edge<GaussianFunction<S>>|
            moved_by_edge(first.nodes, i, data, e);
        lemma_moved_edge_by_edge(first, first.edges.len(), i, node.data@);
        lemma_moved_edge_by_edge(second, second.edges.len(), i, node.data@);
        lemma_edges_commute(first.nodes, i);
        lemma_fold_left_permutation(first.edges, second.edges, f, node.data@);
    }
}

/// The identity matrix is its own transpose.
pub proof fn lemma_identity_transposed<S: Scalar>(n: nat)
    ensures
        MatrixView::<S>::identity(n).transposed() == MatrixView::<S>::identity(n),
{
    lemma_equal_by_entries(MatrixView::<S>::identity(n).transposed(), MatrixView::<S>::identity(n));
}

/// Through the identity, with the linear activation and no bias, the source
/// is predicted to be the target, and each of the two is pulled toward the
/// other by exactly their difference.
pub proof fn lemma_identity_edge<S: Ring>(f: FunctionView<S>, x: MatrixView<S>, t: MatrixView<S>)
    requires
        joins(f, x, t),
        f.activation.kind() is Linear,
        f.bias is None,
        f.params == MatrixView::<S>::identity(x.cols),
    ensures
        f.prediction(x) == x,
        f.source_derivative(x, t) == t.minus(x),
        f.target_derivative(x, t) == x.minus(t),
{
    lemma_linear_edge(f, x, t);
    lemma_matmul_identity(x);
    lemma_identity_transposed::<S>(x.cols);
    lemma_matmul_identity(t.minus(x));
}

/// Over the integers, a source that steps along its derivative through the
/// identity does not get farther from the target: after the step no entry of
/// the residual `t − x` is larger in absolute value than before.
pub proof fn lemma_identity_pull_never_grows(
    f: FunctionView<i64>,
    x: MatrixView<i64>,
    t: MatrixView<i64>,
    j: int,
)
    requires
        joins(f, x, t),
        f.activation.kind() is Linear,
        f.bias is None,
        f.params == MatrixView::<i64>::identity(x.cols),
        0 <= j < x.cols,
    ensures
        abs(t.minus(moved(x, seq![f.source_derivative(x, t)])).at(0, j) as int) <= abs(
            t.minus(x).at(0, j) as int,
        ),
{
    lemma_identity_edge(f, x, t);
    let pull = f.source_derivative(x, t);
    lemma_moved_push(x, Seq::empty(), pull);
    lemma_step_toward(x.at(0, j), t.at(0, j));
}

/// Every edge of the graph predicts the value of its target exactly.
pub open spec fn at_rest<S: Scalar>(g: GraphView<GaussianVariable<S>, GaussianFunction<S>>) -> bool {
    forall|k: int|
        0 <= k < g.edges.len() ==> {
            let e = #[trigger] g.edges[k];
            e.function@.prediction(g.nodes[e.source as int].data@) == g.nodes[e.target as int].data@
        }
}

/// In a graph at rest, every derivative that the edges hand to a node is zero.
pub proof fn lemma_rest_derivatives<S: Ring>(
    g: GraphView<GaussianVariable<S>, GaussianFunction<S>>,
    count: nat,
    i: int,
)
    requires
        g.wf(),
        at_rest(g),
        count <= g.edges.len(),
        0 <= i < g.nodes.len(),
    ensures
        forall|k: int|
            0 <= k < g.derivatives_through(count, i).len() ==> #[trigger] g.derivatives_through(
                count,
                i,
            )[k] == MatrixView::<S>::zeros(1, g.nodes[i].size as nat),
    decreases count,
{
    if count > 0 {
        lemma_rest_derivatives(g, (count - 1) as nat, i);
        let e = g.edges[count - 1];
        let source = g.nodes[e.source as int];
        let target = g.nodes[e.target as int];
        assert(crate::graph::connects(&e.function, &source, &target));
        lemma_exact_prediction(e.function@, source.data@, target.data@);
        let before = g.derivatives_through((count - 1) as nat, i);
        let now = g.derivatives_through(count, i);
        let d = e.function.backward_spec(&source, &target);
        let zeros = MatrixView::<S>::zeros(1, g.nodes[i].size as nat);
        assert forall|k: int| 0 <= k < now.len() implies #[trigger] now[k] == zeros by {
            if k < before.len() {
                assert(now[k] == before[k]);
            } else if e.target == i && k == before.len() {
                assert(now[k] == d.1);
            } else {
                assert(e.source == i);
                assert(now[k] == d.0);
            }
        }
    }
}

/// A sweep of inference changes no node of a graph at rest, and a sweep of
/// learning changes no transform of it: the graph is a fixed point of both.
pub proof fn lemma_rest_is_fixed_point<S: Ring>(
    g: GraphView<GaussianVariable<S>, GaussianFunction<S>>,
    inferred: GraphView<GaussianVariable<S>, GaussianFunction<S>>,
    learned: GraphView<GaussianVariable<S>, GaussianFunction<S>>,
)
    requires
        g.wf(),
        at_rest(g),
        g.inferred(inferred),
        g.learned(learned),
    ensures
        forall|i: int| 0 <= i < g.nodes.len() ==> (#[trigger] inferred.nodes[i])@ == g.nodes[i]@,
        forall|k: int|
            0 <= k < g.edges.len() ==> (#[trigger] learned.edges[k]).function@
                == g.edges[k].function@,
{
    assert forall|i: int| 0 <= i < g.nodes.len() implies (#[trigger] inferred.nodes[i])@
        == g.nodes[i]@ by {
        let node = g.nodes[i];
        lemma_rest_derivatives(g, g.edges.len(), i);
        lemma_moved_by_zeros(node.data@, g.derivatives_for(i));
    }
    assert forall|k: int| 0 <= k < g.edges.len() implies (#[trigger] learned.edges[k]).function@
        == g.edges[k].function@ by {
        let e = g.edges[k];
        let source = g.nodes[e.source as int];
        let target = g.nodes[e.target as int];
        lemma_exact_prediction(e.function@, source.data@, target.data@);
        let f = e.function@;
        let dw = MatrixView::<S>::zeros(f.params.rows, f.params.cols);
        let moved_params = f.params.plus(dw.stepped());
        assert forall|a: int, b: int|
            0 <= a < f.params.rows && 0 <= b < f.params.cols implies moved_params.at(a, b)
            == f.params.at(a, b) by {
            S::step_zero();
            S::plus_zero(f.params.at(a, b));
        }
        lemma_equal_by_entries(moved_params, f.params);
        if let Some(bias) = f.bias {
            let db = Seq::new(f.params.cols, |j: int| S::zero_spec());
            assert forall|j: int| 0 <= j < bias.len() implies #[trigger] plus_seq(
                bias,
                stepped_seq(db),
            )[j] == bias[j] by {
                S::step_zero();
                S::plus_zero(bias[j]);
            }
        }
    }
}

} // verus!
