//! Sweeps in two phases: first the changes are computed for the whole graph,
//! then they are applied.
//!
//! [`forward`] adds up, for every node, what the edges at the node ask of it:
//! as the target of an edge a node is asked to give up the error of the
//! prediction, as the source it is asked to take the error carried back
//! through the transform. [`apply_deltas`] then moves every free node by its
//! sum, scaled by the step size. [`forward_params`] and
//! [`apply_param_deltas`] do the same for the weights of the edges.

pub mod transform;
pub mod variable;

use crate::gaussian::variable::VariableView;
use crate::graph::{Graph, GraphView};
use crate::infer::transform::Transform;
use crate::infer::variable::Variable;
use crate::linalg::matrix::Matrix;
use crate::linalg::model::MatrixView;
use crate::scalar::Scalar;
use std::collections::HashMap;
use vstd::prelude::*;

verus! {

/// The change asked of each node, by the index of the node.
pub type VariableDeltas<S> = HashMap<usize, Matrix<S>>;

/// The change asked of the weights of each edge, by the index of the edge.
pub type TransformDeltas<S> = HashMap<usize, Matrix<S>>;

/// `deltas` holds a well-formed matrix for exactly the indices of `expected`,
/// and each is the matrix that `expected` gives.
pub open spec fn models<S: Scalar>(
    deltas: Map<usize, Matrix<S>>,
    expected: Map<usize, MatrixView<S>>,
) -> bool {
    &&& forall|k: usize| deltas.contains_key(k) <==> expected.contains_key(k)
    &&& forall|k: usize| #[trigger]
        deltas.contains_key(k) ==> deltas[k].wf() && deltas[k]@ == expected[k]
}

/// Every delta belongs to a node of the graph and is a row of the size of
/// that node.
pub open spec fn fit_nodes<S: Scalar>(
    deltas: Map<usize, Matrix<S>>,
    g: GraphView<Variable<S>, Transform<S>>,
) -> bool {
    forall|k: usize| #[trigger]
        deltas.contains_key(k) ==> {
            &&& k < g.nodes.len()
            &&& deltas[k].wf()
            &&& deltas[k].rows == 1
            &&& deltas[k].cols == g.nodes[k as int].size
        }
}

/// Every delta belongs to an edge of the graph and has the shape of the
/// weights of that edge.
pub open spec fn fit_edges<S: Scalar>(
    deltas: Map<usize, Matrix<S>>,
    g: GraphView<Variable<S>, Transform<S>>,
) -> bool {
    forall|k: usize| #[trigger]
        deltas.contains_key(k) ==> {
            &&& k < g.edges.len()
            &&& deltas[k].wf()
            &&& deltas[k].rows == g.edges[k as int].function.params.rows
            &&& deltas[k].cols == g.edges[k as int].function.params.cols
        }
}

/// The error of edge `k`: the value of its target minus the prediction from
/// the value of its source.
pub open spec fn edge_error<S: Scalar>(g: GraphView<Variable<S>, Transform<S>>, k: int) -> MatrixView<S> {
    let e = g.edges[k];
    e.function@.error(g.nodes[e.source as int].data@, g.nodes[e.target as int].data@)
}

/// The error of edge `k` carried back to its source.
pub open spec fn edge_pull<S: Scalar>(g: GraphView<Variable<S>, Transform<S>>, k: int) -> MatrixView<S> {
    let e = g.edges[k];
    e.function@.projected(g.nodes[e.source as int].data@, edge_error(g, k))
}

/// The error of edge `k` carried to its weights.
pub open spec fn edge_gradient<S: Scalar>(g: GraphView<Variable<S>, Transform<S>>, k: int) -> MatrixView<S> {
    let e = g.edges[k];
    e.function@.outer(g.nodes[e.source as int].data@, edge_error(g, k))
}

/// `deltas` after a target has been asked to give up `error`: the error is
/// subtracted from what was asked of the node before; a node that was asked
/// nothing yet is asked the error with its sign changed.
pub open spec fn pushed<S: Scalar>(
    deltas: Map<usize, MatrixView<S>>,
    target: usize,
    error: MatrixView<S>,
) -> Map<usize, MatrixView<S>> {
    if deltas.contains_key(target) {
        deltas.insert(target, deltas[target].minus(error))
    } else {
        deltas.insert(target, error.negated())
    }
}

/// `deltas` after a source has been asked to take `pull`: the pull is added to
/// what was asked of the node before.
pub open spec fn pulled<S: Scalar>(
    deltas: Map<usize, MatrixView<S>>,
    source: usize,
    pull: MatrixView<S>,
) -> Map<usize, MatrixView<S>> {
    if deltas.contains_key(source) {
        deltas.insert(source, deltas[source].plus(pull))
    } else {
        deltas.insert(source, pull)
    }
}

/// What the first `count` edges ask of the nodes, edge by edge in the order in
/// which the edges were added, the target of an edge before its source.
pub open spec fn deltas_through<S: Scalar>(
    g: GraphView<Variable<S>, Transform<S>>,
    count: nat,
) -> Map<usize, MatrixView<S>>
    decreases count,
{
    if count == 0 {
        Map::empty()
    } else {
        let e = g.edges[count - 1];
        pulled(
            pushed(deltas_through(g, (count - 1) as nat), e.target, edge_error(g, count - 1)),
            e.source,
            edge_pull(g, count - 1),
        )
    }
}

/// What the edges ask of their weights: for every edge its error carried to
/// the weights.
pub open spec fn param_deltas<S: Scalar>(g: GraphView<Variable<S>, Transform<S>>) -> Map<
    usize,
    MatrixView<S>,
> {
    Map::new(|k: usize| k < g.edges.len(), |k: usize| edge_gradient(g, k as int))
}

/// Node `i` after the deltas have been applied: moved by its delta, scaled by
/// the step size, if it has one and is free.
pub open spec fn node_after<S: Scalar>(
    node: VariableView<S>,
    deltas: Map<usize, Matrix<S>>,
    i: usize,
) -> VariableView<S> {
    if deltas.contains_key(i) && !node.fixed {
        VariableView { data: node.data.plus(deltas[i]@.stepped()), ..node }
    } else {
        node
    }
}

/// The weights of edge `k` after the deltas have been applied: moved by the
/// delta of the edge, scaled by the step size, if it has one and is free.
pub open spec fn params_after<S: Scalar>(
    transform: Transform<S>,
    deltas: Map<usize, Matrix<S>>,
    k: usize,
) -> MatrixView<S> {
    if deltas.contains_key(k) && !transform.fixed {
        transform.params@.plus(deltas[k]@.stepped())
    } else {
        transform.params@
    }
}

/// The value with each entry scaled by the step size.
fn scaled<S: Scalar>(delta: &Matrix<S>) -> (r: Matrix<S>)
    requires
        delta.wf(),
    ensures
        r.wf(),
        r.rows == delta.rows,
        r.cols == delta.cols,
        r@ == delta@.stepped(),
{
    let step = |v: S| -> (r: S)
        ensures
            r == v.step_spec(),
        { v.step() };
    let r = delta.apply(step);
    proof {
        r.lemma_view_is(delta@.stepped());
    }
    r
}

/// What the edges ask of the nodes, summed for each node.
pub fn forward<S: Scalar>(graph: &Graph<Variable<S>, Transform<S>>) -> (deltas: VariableDeltas<S>)
    requires
        graph.wf(),
    ensures
        models(deltas@, deltas_through(graph@, graph@.edges.len())),
        fit_nodes(deltas@, graph@),
{
    broadcast use vstd::std_specs::hash::group_hash_axioms;

    let mut deltas: VariableDeltas<S> = HashMap::new();
    let mut k: usize = 0;
    loop
        invariant
            graph.wf(),
            k <= graph@.edges.len(),
            models(deltas@, deltas_through(graph@, k as nat)),
            fit_nodes(deltas@, graph@),
        ensures
            k == graph@.edges.len(),
        decreases graph@.edges.len() - k,
    {
        let edge = match graph.get_edge(k) {
            Some(edge) => edge,
            None => {
                break ;
            },
        };
        proof {
            graph.lemma_counts();
        }
        let source = graph.get_node(edge.source).unwrap();
        let target = graph.get_node(edge.target).unwrap();
        let transform = &edge.function;
        let prediction = transform.forward(source);
        let error = target.data.sub(&prediction);
        let delta_for_target = error.clone();
        let delta_for_source = transform.backward(source, &error);

        match deltas.remove(&edge.target) {
            Some(mut e_delta) => {
                e_delta.sub_assign(&delta_for_target);
                deltas.insert(edge.target, e_delta);
            },
            None => {
                deltas.insert(edge.target, delta_for_target.neg());
            },
        }

        match deltas.remove(&edge.source) {
            Some(mut e_delta) => {
                e_delta.add_assign(&delta_for_source);
                deltas.insert(edge.source, e_delta);
            },
            None => {
                deltas.insert(edge.source, delta_for_source);
            },
        }
        k += 1;
    }
    deltas
}

/// What the edges ask of their weights, for each edge.
pub fn forward_params<S: Scalar>(graph: &Graph<Variable<S>, Transform<S>>) -> (deltas:
    TransformDeltas<S>)
    requires
        graph.wf(),
    ensures
        models(deltas@, param_deltas(graph@)),
        fit_edges(deltas@, graph@),
{
    broadcast use vstd::std_specs::hash::group_hash_axioms;

    let mut deltas: TransformDeltas<S> = HashMap::new();
    let mut index: usize = 0;
    loop
        invariant
            graph.wf(),
            index <= graph@.edges.len(),
            forall|k: usize| deltas@.contains_key(k) <==> k < index,
            forall|k: usize|
                deltas@.contains_key(k) ==> (#[trigger] deltas@[k]).wf() && deltas@[k]@
                    == edge_gradient(graph@, k as int),
            fit_edges(deltas@, graph@),
        ensures
            index == graph@.edges.len(),
        decreases graph@.edges.len() - index,
    {
        let edge = match graph.get_edge(index) {
            Some(edge) => edge,
            None => {
                break ;
            },
        };
        proof {
            graph.lemma_counts();
        }
        let source = graph.get_node(edge.source).unwrap();
        let target = graph.get_node(edge.target).unwrap();
        let transform = &edge.function;
        let prediction = transform.forward(source);
        let error = target.data.sub(&prediction);
        let delta = transform.backward_params(source, &error);

        deltas.insert(index, delta);
        index += 1;
    }
    deltas
}

/// Moves every free node that has a delta by that delta, scaled by the step
/// size. The other nodes and the edges stay as they are.
pub fn apply_deltas<S: Scalar>(graph: &mut Graph<Variable<S>, Transform<S>>, deltas: VariableDeltas<S>)
    requires
        old(graph).wf(),
        fit_nodes(deltas@, old(graph)@),
    ensures
        final(graph).wf(),
        final(graph)@.edges == old(graph)@.edges,
        final(graph)@.nodes.len() == old(graph)@.nodes.len(),
        forall|i: usize|
            i < old(graph)@.nodes.len() ==> (#[trigger] final(graph)@.nodes[i as int])@ == node_after(
                old(graph)@.nodes[i as int]@,
                deltas@,
                i,
            ),
{
    broadcast use vstd::std_specs::hash::group_hash_axioms;

    let mut index: usize = 0;
    loop
        invariant
            old(graph).wf(),
            graph.wf(),
            fit_nodes(deltas@, old(graph)@),
            graph@.edges == old(graph)@.edges,
            graph@.nodes.len() == old(graph)@.nodes.len(),
            index <= graph@.nodes.len(),
            forall|i: usize|
                i < index ==> (#[trigger] graph@.nodes[i as int])@ == node_after(
                    old(graph)@.nodes[i as int]@,
                    deltas@,
                    i,
                ),
            forall|i: usize|
                index <= i < graph@.nodes.len() ==> #[trigger] graph@.nodes[i as int] == old(
                    graph,
                )@.nodes[i as int],
        ensures
            index == graph@.nodes.len(),
        decreases graph@.nodes.len() - index,
    {
        proof {
            graph.lemma_counts();
        }
        let node = match graph.get_node_mut(index) {
            Some(node) => node,
            None => {
                break ;
            },
        };
        if let Some(delta) = deltas.get(&index) {
            if !node.fixed {
                let step = scaled(delta);
                node.data.add_assign(&step);
            }
        }
        index += 1;
    }
}

/// Moves the weights of every free edge that has a delta by that delta, scaled
/// by the step size. The other edges and the nodes stay as they are.
pub fn apply_param_deltas<S: Scalar>(
    graph: &mut Graph<Variable<S>, Transform<S>>,
    deltas: TransformDeltas<S>,
)
    requires
        old(graph).wf(),
        fit_edges(deltas@, old(graph)@),
    ensures
        final(graph).wf(),
        final(graph)@.nodes == old(graph)@.nodes,
        final(graph)@.edges.len() == old(graph)@.edges.len(),
        forall|k: usize|
            k < old(graph)@.edges.len() ==> {
                let before = old(graph)@.edges[k as int];
                let after = #[trigger] final(graph)@.edges[k as int];
                &&& after.source == before.source
                &&& after.target == before.target
                &&& after.function.fixed == before.function.fixed
                &&& after.function.function == before.function.function
                &&& after.function.params@ == params_after(before.function, deltas@, k)
            },
{
    broadcast use vstd::std_specs::hash::group_hash_axioms;

    let mut index: usize = 0;
    loop
        invariant
            old(graph).wf(),
            graph.wf(),
            fit_edges(deltas@, old(graph)@),
            graph@.nodes == old(graph)@.nodes,
            graph@.edges.len() == old(graph)@.edges.len(),
            index <= graph@.edges.len(),
            forall|k: usize|
                k < index ==> {
                    let before = old(graph)@.edges[k as int];
                    let after = #[trigger] graph@.edges[k as int];
                    &&& after.source == before.source
                    &&& after.target == before.target
                    &&& after.function.fixed == before.function.fixed
                    &&& after.function.function == before.function.function
                    &&& after.function.params@ == params_after(before.function, deltas@, k)
                },
            forall|k: usize|
                index <= k < graph@.edges.len() ==> #[trigger] graph@.edges[k as int] == old(
                    graph,
                )@.edges[k as int],
        ensures
            index == graph@.edges.len(),
        decreases graph@.edges.len() - index,
    {
        proof {
            graph.lemma_counts();
        }
        let edge = match graph.get_edge_mut(index) {
            Some(edge) => edge,
            None => {
                break ;
            },
        };
        let transform = &mut edge.function;
        if let Some(delta) = deltas.get(&index) {
            if !transform.fixed {
                let step = scaled(delta);
                transform.params.add_assign(&step);
            }
        }
        index += 1;
    }
}

} // verus!
