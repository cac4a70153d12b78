//! The graph of variables and transforms, and the sweeps that run over it.
//!
//! A graph owns an ordered list of nodes and an ordered list of directed edges.
//! A node is a [`Variable`]; an edge carries a [`Function`] from its source node
//! to its target node. Both are known by the index at which they were added,
//! and nothing is ever removed.
//!
//! [`Graph::infer`] updates the nodes and leaves the edges alone;
//! [`Graph::learn`] updates the edges and leaves the nodes alone. Both read the
//! nodes as they were before the sweep.

pub mod predictions;

use crate::graph::predictions::Predictions;
use crate::linalg::matrix::Matrix;
use crate::linalg::model::MatrixView;
use crate::linalg::vector::Vector;
use crate::scalar::Scalar;
use vstd::prelude::*;
use vstd::std_specs::slice::into_iter_elts;

verus! {

/// The models of a sequence of matrices.
pub open spec fn views<S: Scalar>(matrices: Seq<Matrix<S>>) -> Seq<MatrixView<S>> {
    Seq::new(matrices.len(), |k: int| matrices[k]@)
}

/// Each of `matrices` is a well-formed row of `size` entries.
pub open spec fn rows_of<S: Scalar>(matrices: Seq<Matrix<S>>, size: nat) -> bool {
    forall|k: int|
        0 <= k < matrices.len() ==> (#[trigger] matrices[k]).wf() && matrices[k].rows == 1
            && matrices[k].cols == size
}

/// A node of the graph: a vector of `size_spec()` scalars that moves along the
/// derivatives that the edges at the node hand to it.
pub trait Variable: Sized {
    /// The scalars that the variable holds.
    type Elem: Scalar;

    /// The variable is well-formed.
    spec fn valid(&self) -> bool;

    /// The number of scalars that the variable holds.
    spec fn size_spec(&self) -> nat;

    /// `after` is the variable once it has taken the given derivatives, in order.
    spec fn updated(&self, derivatives: Seq<MatrixView<Self::Elem>>, after: &Self) -> bool;

    /// Takes the derivatives in order. Each is a row of `size_spec()` entries.
    fn update(&mut self, derivatives: &Vec<Matrix<Self::Elem>>)
        requires
            old(self).valid(),
            rows_of(derivatives@, old(self).size_spec()),
        ensures
            final(self).valid(),
            final(self).size_spec() == old(self).size_spec(),
            old(self).updated(views(derivatives@), final(self)),
    ;
}

/// `derivative` is a well-formed row with one entry for each scalar of `node`.
pub open spec fn fits<T: Variable>(node: &T, derivative: Matrix<T::Elem>) -> bool {
    derivative.wf() && derivative.rows == 1 && derivative.cols == node.size_spec()
}

/// An edge function: it predicts a target of `output_size()` scalars from a
/// source of `input_size()` scalars, and has parameters that can be adjusted.
pub trait Function<T: Variable>: Sized {
    /// The function is well-formed.
    spec fn valid(&self) -> bool;

    /// The size of the variables that the function takes.
    spec fn input_size(&self) -> nat;

    /// The size of the variables that the function predicts.
    spec fn output_size(&self) -> nat;

    /// The prediction of the target from `input`.
    spec fn forward_spec(&self, input: &T) -> MatrixView<T::Elem>;

    /// The derivative for the source and the derivative for the target.
    spec fn backward_spec(&self, input: &T, target: &T) -> (
        MatrixView<T::Elem>,
        MatrixView<T::Elem>,
    );

    /// The derivatives for the parameters: one for the weights, one for the bias.
    spec fn backward_params_spec(&self, input: &T, target: &T) -> (
        MatrixView<T::Elem>,
        Seq<T::Elem>,
    );

    /// `after` is the function once its parameters have taken the derivatives.
    spec fn updated(&self, derivatives: (MatrixView<T::Elem>, Seq<T::Elem>), after: &Self) -> bool;

    /// The prediction of the target from `input`: a row of `output_size()`
    /// entries.
    fn forward(&self, input: &T) -> (r: Matrix<T::Elem>)
        requires
            self.valid(),
            input.valid(),
            input.size_spec() == self.input_size(),
        ensures
            r.wf(),
            r.rows == 1,
            r.cols == self.output_size(),
            r@ == self.forward_spec(input),
    ;

    /// The derivative for the source and the derivative for the target, each a
    /// row of the size of its node.
    fn backward(&self, input: &T, target: &T) -> (r: (Matrix<T::Elem>, Matrix<T::Elem>))
        requires
            self.valid(),
            input.valid(),
            target.valid(),
            input.size_spec() == self.input_size(),
            target.size_spec() == self.output_size(),
        ensures
            fits(input, r.0),
            fits(target, r.1),
            (r.0@, r.1@) == self.backward_spec(input, target),
    ;

    /// The derivatives for the parameters, in the shapes of the parameters: the
    /// first is `input_size()` by `output_size()`, the second has
    /// `output_size()` entries.
    fn backward_params(&self, input: &T, target: &T) -> (r: (Matrix<T::Elem>, Vector<T::Elem>))
        requires
            self.valid(),
            input.valid(),
            target.valid(),
            input.size_spec() == self.input_size(),
            target.size_spec() == self.output_size(),
        ensures
            r.0.wf(),
            r.0.rows == self.input_size(),
            r.0.cols == self.output_size(),
            r.1.wf(),
            r.1.size == self.output_size(),
            (r.0@, r.1@) == self.backward_params_spec(input, target),
    ;

    /// Adjusts the parameters along the derivatives, which have the shapes of
    /// the parameters.
    fn update(&mut self, derivatives: (Matrix<T::Elem>, Vector<T::Elem>))
        requires
            old(self).valid(),
            derivatives.0.wf(),
            derivatives.0.rows == old(self).input_size(),
            derivatives.0.cols == old(self).output_size(),
            derivatives.1.wf(),
            derivatives.1.size == old(self).output_size(),
        ensures
            final(self).valid(),
            final(self).input_size() == old(self).input_size(),
            final(self).output_size() == old(self).output_size(),
            old(self).updated((derivatives.0@, derivatives.1@), final(self)),
    ;
}

/// `function` can stand on an edge from `source` to `target`: all three are
/// well-formed and the sizes agree.
pub open spec fn connects<T: Variable, F: Function<T>>(function: &F, source: &T, target: &T) -> bool {
    &&& function.valid()
    &&& source.valid()
    &&& target.valid()
    &&& source.size_spec() == function.input_size()
    &&& target.size_spec() == function.output_size()
}

/// A directed edge: the indices of its two nodes, and its function.
pub struct Edge<F> {
    pub source: usize,
    pub target: usize,
    pub function: F,
}

/// The edges that a list of triples of source, target and function describes.
pub open spec fn edges_of<F>(infos: Seq<(usize, usize, F)>) -> Seq<Edge<F>> {
    Seq::new(
        infos.len(),
        |k: int| Edge { source: infos[k].0, target: infos[k].1, function: infos[k].2 },
    )
}

/// A graph as a mathematical value: its nodes and its edges, in the order in
/// which they were added.
pub struct GraphView<T, F> {
    pub nodes: Seq<T>,
    pub edges: Seq<Edge<F>>,
}

impl<T: Variable, F: Function<T>> GraphView<T, F> {
    /// Every node is well-formed, and every edge joins two nodes of the graph
    /// whose sizes are those of its function.
    pub open spec fn wf(self) -> bool {
        &&& forall|i: int| 0 <= i < self.nodes.len() ==> (#[trigger] self.nodes[i]).valid()
        &&& forall|k: int|
            0 <= k < self.edges.len() ==> {
                let e = #[trigger] self.edges[k];
                &&& e.source < self.nodes.len()
                &&& e.target < self.nodes.len()
                &&& connects(&e.function, &self.nodes[e.source as int], &self.nodes[e.target as int])
            }
    }

    /// The derivatives that the first `count` edges hand to node `i`, in the
    /// order in which the node takes them: edge by edge as the edges were added,
    /// and within an edge that both starts and ends at `i`, the derivative for
    /// the target before the derivative for the source.
    pub open spec fn derivatives_through(self, count: nat, i: int) -> Seq<MatrixView<T::Elem>>
        decreases count,
    {
        if count == 0 {
            Seq::empty()
        } else {
            let before = self.derivatives_through((count - 1) as nat, i);
            let e = self.edges[count - 1];
            let d = e.function.backward_spec(
                &self.nodes[e.source as int],
                &self.nodes[e.target as int],
            );
            let pushed = if e.target == i {
                before.push(d.1)
            } else {
                before
            };
            if e.source == i {
                pushed.push(d.0)
            } else {
                pushed
            }
        }
    }

    /// The derivatives that one sweep hands to node `i`, in order.
    pub open spec fn derivatives_for(self, i: int) -> Seq<MatrixView<T::Elem>> {
        self.derivatives_through(self.edges.len(), i)
    }

    /// The derivatives for the parameters of edge `k`.
    pub open spec fn parameter_derivatives(self, k: int) -> (MatrixView<T::Elem>, Seq<T::Elem>) {
        let e = self.edges[k];
        e.function.backward_params_spec(&self.nodes[e.source as int], &self.nodes[e.target as int])
    }

    /// `after` is the graph after one sweep of inference: it has the same
    /// edges, and each node has taken the derivatives that the edges, read
    /// against the nodes of `self`, hand to it.
    pub open spec fn inferred(self, after: Self) -> bool {
        &&& after.edges == self.edges
        &&& after.nodes.len() == self.nodes.len()
        &&& forall|i: int|
            0 <= i < self.nodes.len() ==> (#[trigger] self.nodes[i]).updated(
                self.derivatives_for(i),
                &after.nodes[i],
            )
    }

    /// `after` is the graph after one sweep of learning: it has the same nodes,
    /// and each edge joins the same two nodes with a function whose parameters
    /// have taken the derivatives computed from those nodes.
    pub open spec fn learned(self, after: Self) -> bool {
        &&& after.nodes == self.nodes
        &&& after.edges.len() == self.edges.len()
        &&& forall|k: int|
            0 <= k < self.edges.len() ==> {
                let e = #[trigger] self.edges[k];
                &&& after.edges[k].source == e.source
                &&& after.edges[k].target == e.target
                &&& e.function.updated(self.parameter_derivatives(k), &after.edges[k].function)
            }
    }

    /// The predictions of the first `count` edges, by the pair of source and
    /// target. Of several edges with one pair the last one counts.
    pub open spec fn predictions_through(self, count: nat) -> Map<(usize, usize), MatrixView<T::Elem>>
        decreases count,
    {
        if count == 0 {
            Map::empty()
        } else {
            let e = self.edges[count - 1];
            self.predictions_through((count - 1) as nat).insert(
                (e.source, e.target),
                e.function.forward_spec(&self.nodes[e.source as int]),
            )
        }
    }

    /// The predictions of all edges.
    pub open spec fn predictions(self) -> Map<(usize, usize), MatrixView<T::Elem>> {
        self.predictions_through(self.edges.len())
    }
}

/// The graph: nodes and edges by the index at which they were added.
pub struct Graph<T: Variable, F: Function<T>> {
    nodes: Vec<T>,
    edges: Vec<Edge<F>>,
}

impl<T: Variable, F: Function<T>> View for Graph<T, F> {
    type V = GraphView<T, F>;

    closed spec fn view(&self) -> GraphView<T, F> {
        GraphView { nodes: self.nodes@, edges: self.edges@ }
    }
}

impl<T: Variable, F: Function<T>> Graph<T, F> {
    /// The graph is well-formed.
    pub open spec fn wf(&self) -> bool {
        self@.wf()
    }

    /// The indices of the nodes and of the edges are machine integers.
    pub proof fn lemma_counts(&self)
        ensures
            self@.nodes.len() <= usize::MAX,
            self@.edges.len() <= usize::MAX,
    {
        assert(self.nodes@.len() == self.nodes.len());
        assert(self.edges@.len() == self.edges.len());
    }

    /// The graph without nodes or edges.
    pub fn new() -> (r: Self)
        ensures
            r.wf(),
            r@.nodes.len() == 0,
            r@.edges.len() == 0,
    {
        Self { nodes: Vec::new(), edges: Vec::new() }
    }

    /// Adds a node and returns its index.
    pub fn add_node(&mut self, value: T) -> (index: usize)
        requires
            old(self).wf(),
            value.valid(),
        ensures
            final(self).wf(),
            index == old(self)@.nodes.len(),
            final(self)@.nodes == old(self)@.nodes.push(value),
            final(self)@.edges == old(self)@.edges,
    {
        self.nodes.push(value);
        proof {
            let before = old(self)@;
            let after = self@;
            assert forall|k: int| 0 <= k < after.edges.len() implies {
                let e = #[trigger] after.edges[k];
                &&& e.source < after.nodes.len()
                &&& e.target < after.nodes.len()
                &&& connects(&e.function, &after.nodes[e.source as int], &after.nodes[e.target as int])
            } by {
                let e = before.edges[k];
                assert(after.nodes[e.source as int] == before.nodes[e.source as int]);
            }
        }
        self.nodes.len() - 1
    }

    /// Adds an edge from node `source` to node `target` and returns its index.
    pub fn add_edge(&mut self, source: usize, target: usize, function: F) -> (index: usize)
        requires
            old(self).wf(),
            source < old(self)@.nodes.len(),
            target < old(self)@.nodes.len(),
            connects(&function, &old(self)@.nodes[source as int], &old(self)@.nodes[target as int]),
        ensures
            final(self).wf(),
            index == old(self)@.edges.len(),
            final(self)@.nodes == old(self)@.nodes,
            final(self)@.edges == old(self)@.edges.push(Edge { source, target, function }),
    {
        let edge = Edge { function, source, target };
        self.edges.push(edge);
        proof {
            let before = old(self)@;
            let after = self@;
            assert forall|k: int| 0 <= k < after.edges.len() implies {
                let e = #[trigger] after.edges[k];
                &&& e.source < after.nodes.len()
                &&& e.target < after.nodes.len()
                &&& connects(&e.function, &after.nodes[e.source as int], &after.nodes[e.target as int])
            } by {
                if k < before.edges.len() {
                    assert(after.edges[k] == before.edges[k]);
                }
            }
        }
        self.edges.len() - 1
    }

    /// Adds the edges in order and returns their indices. Each item gives the
    /// source, the target and the function of one edge.
    pub fn add_edges(&mut self, edges_info: Vec<(usize, usize, F)>) -> (indices: Vec<usize>)
        requires
            old(self).wf(),
            forall|k: int|
                0 <= k < edges_info@.len() ==> {
                    let info = #[trigger] edges_info@[k];
                    &&& info.0 < old(self)@.nodes.len()
                    &&& info.1 < old(self)@.nodes.len()
                    &&& connects(
                        &info.2,
                        &old(self)@.nodes[info.0 as int],
                        &old(self)@.nodes[info.1 as int],
                    )
                },
        ensures
            final(self).wf(),
            final(self)@.nodes == old(self)@.nodes,
            final(self)@.edges == old(self)@.edges + edges_of(edges_info@),
            indices@.len() == edges_info@.len(),
            forall|k: int|
                0 <= k < edges_info@.len() ==> #[trigger] indices@[k] == old(self)@.edges.len() + k,
    {
        let ghost infos = edges_info@;
        let mut indices: Vec<usize> = Vec::new();
        for info in it: edges_info
            invariant
                it.seq() == infos,
                self.wf(),
                self@.nodes == old(self)@.nodes,
                forall|k: int|
                    0 <= k < infos.len() ==> {
                        let info = #[trigger] infos[k];
                        &&& info.0 < old(self)@.nodes.len()
                        &&& info.1 < old(self)@.nodes.len()
                        &&& connects(
                            &info.2,
                            &old(self)@.nodes[info.0 as int],
                            &old(self)@.nodes[info.1 as int],
                        )
                    },
                self@.edges == old(self)@.edges + edges_of(infos.take(it.index() as int)),
                indices@.len() == it.index(),
                forall|k: int|
                    0 <= k < it.index() ==> #[trigger] indices@[k] == old(self)@.edges.len() + k,
        {
            let (source, target, function) = info;
            let index = self.add_edge(source, target, function);
            indices.push(index);
        }
        indices
    }

    /// The node at `index`, if there is one.
    pub fn get_node(&self, index: usize) -> (r: Option<&T>)
        ensures
            index < self@.nodes.len() ==> r == Some(&self@.nodes[index as int]),
            index >= self@.nodes.len() ==> r is None,
    {
        if index < self.nodes.len() {
            Some(&self.nodes[index])
        } else {
            None
        }
    }

    /// The node at `index`, to be changed in place. The graph afterwards
    /// differs from the graph before in that node alone.
    pub fn get_node_mut(&mut self, index: usize) -> (r: Option<&mut T>)
        ensures
            index >= old(self)@.nodes.len() ==> r is None && *final(self) == *old(self),
            index < old(self)@.nodes.len() ==> {
                &&& r is Some
                &&& *r->0 == old(self)@.nodes[index as int]
                &&& final(self)@.nodes == old(self)@.nodes.update(index as int, *final(r->0))
                &&& final(self)@.edges == old(self)@.edges
            },
    {
        if index < self.nodes.len() {
            Some(&mut self.nodes[index])
        } else {
            None
        }
    }

    /// The edge at `index`, if there is one.
    pub fn get_edge(&self, index: usize) -> (r: Option<&Edge<F>>)
        ensures
            index < self@.edges.len() ==> r == Some(&self@.edges[index as int]),
            index >= self@.edges.len() ==> r is None,
    {
        if index < self.edges.len() {
            Some(&self.edges[index])
        } else {
            None
        }
    }

    /// The edge at `index`, to be changed in place. The graph afterwards
    /// differs from the graph before in that edge alone.
    pub fn get_edge_mut(&mut self, index: usize) -> (r: Option<&mut Edge<F>>)
        ensures
            index >= old(self)@.edges.len() ==> r is None && *final(self) == *old(self),
            index < old(self)@.edges.len() ==> {
                &&& r is Some
                &&& *r->0 == old(self)@.edges[index as int]
                &&& final(self)@.edges == old(self)@.edges.update(index as int, *final(r->0))
                &&& final(self)@.nodes == old(self)@.nodes
            },
    {
        if index < self.edges.len() {
            Some(&mut self.edges[index])
        } else {
            None
        }
    }

    /// The nodes in the order in which they were added.
    pub fn get_nodes(&self) -> (r: std::slice::Iter<'_, T>)
        ensures
            into_iter_elts(r) == self@.nodes,
    {
        self.nodes.iter()
    }

    /// The edges in the order in which they were added.
    pub fn get_edges(&self) -> (r: std::slice::Iter<'_, Edge<F>>)
        ensures
            into_iter_elts(r) == self@.edges,
    {
        self.edges.iter()
    }

    /// The prediction of every edge from the value of its source node, by the
    /// pair of source and target.
    pub fn forward(&self) -> (r: Predictions<T::Elem>)
        requires
            self.wf(),
        ensures
            r.wf(),
            r@ == self@.predictions(),
    {
        let mut preds: Predictions<T::Elem> = Predictions::new();
        let mut k: usize = 0;
        while k < self.edges.len()
            invariant
                self.wf(),
                preds.wf(),
                k <= self@.edges.len(),
                preds@ == self@.predictions_through(k as nat),
            decreases self@.edges.len() - k,
        {
            let source = self.edges[k].source;
            let target = self.edges[k].target;
            let pred = self.edges[k].function.forward(&self.nodes[source]);
            preds.insert((source, target), pred);
            k += 1;
        }
        preds
    }

    /// One sweep of inference. Every edge gives a derivative to its target and
    /// one to its source, both computed from the nodes as they are before the
    /// sweep; then every node takes the derivatives that it was given.
    pub fn infer(&mut self)
        requires
            old(self).wf(),
        ensures
            final(self).wf(),
            old(self)@.inferred(final(self)@),
    {
        let n = self.nodes.len();
        let mut deltas: Vec<Vec<Matrix<T::Elem>>> = Vec::new();
        let mut i: usize = 0;
        while i < n
            invariant
                i <= n,
                deltas@.len() == i,
                forall|j: int| 0 <= j < i ==> (#[trigger] deltas@[j])@.len() == 0,
            decreases n - i,
        {
            deltas.push(Vec::new());
            i += 1;
        }
        let mut k: usize = 0;
        while k < self.edges.len()
            invariant
                self.wf(),
                *self == *old(self),
                n == self@.nodes.len(),
                k <= self@.edges.len(),
                deltas@.len() == n,
                forall|j: int|
                    0 <= j < n ==> views((#[trigger] deltas@[j])@) == self@.derivatives_through(
                        k as nat,
                        j,
                    ),
                forall|j: int, l: int|
                    0 <= j < n && 0 <= l < deltas@[j]@.len() ==> fits(
                        &self@.nodes[j],
                        #[trigger] deltas@[j]@[l],
                    ),
            decreases self@.edges.len() - k,
        {
            let source = self.edges[k].source;
            let target = self.edges[k].target;
            let (source_deriv, target_deriv) = self.edges[k].function.backward(
                &self.nodes[source],
                &self.nodes[target],
            );
            deltas[target].push(target_deriv);
            deltas[source].push(source_deriv);
            k += 1;
        }
        let mut i: usize = 0;
        while i < n
            invariant
                old(self).wf(),
                i <= n,
                n == self@.nodes.len(),
                n == old(self)@.nodes.len(),
                deltas@.len() == n,
                self@.edges == old(self)@.edges,
                forall|j: int|
                    0 <= j < n ==> views((#[trigger] deltas@[j])@) == old(self)@.derivatives_for(j),
                forall|j: int, l: int|
                    0 <= j < n && 0 <= l < deltas@[j]@.len() ==> fits(
                        &old(self)@.nodes[j],
                        #[trigger] deltas@[j]@[l],
                    ),
                forall|j: int| i <= j < n ==> #[trigger] self@.nodes[j] == old(self)@.nodes[j],
                forall|j: int|
                    0 <= j < n ==> (#[trigger] self@.nodes[j]).valid() && self@.nodes[j].size_spec()
                        == old(self)@.nodes[j].size_spec(),
                forall|j: int|
                    0 <= j < i ==> (#[trigger] old(self)@.nodes[j]).updated(
                        old(self)@.derivatives_for(j),
                        &self@.nodes[j],
                    ),
            decreases n - i,
        {
            self.nodes[i].update(&deltas[i]);
            i += 1;
        }
    }

    /// One sweep of learning. Every edge, in the order in which the edges were
    /// added, computes the derivatives for its parameters from its two nodes
    /// and adjusts its parameters along them. No node changes.
    pub fn learn(&mut self)
        requires
            old(self).wf(),
        ensures
            final(self).wf(),
            old(self)@.learned(final(self)@),
    {
        let m = self.edges.len();
        let mut i: usize = 0;
        while i < m
            invariant
                old(self).wf(),
                self.wf(),
                i <= m,
                m == self@.edges.len(),
                m == old(self)@.edges.len(),
                self@.nodes == old(self)@.nodes,
                forall|k: int| i <= k < m ==> #[trigger] self@.edges[k] == old(self)@.edges[k],
                forall|k: int|
                    0 <= k < i ==> {
                        let before = #[trigger] old(self)@.edges[k];
                        let after = self@.edges[k];
                        &&& after.source == before.source
                        &&& after.target == before.target
                        &&& before.function.updated(
                            old(self)@.parameter_derivatives(k),
                            &after.function,
                        )
                    },
            decreases m - i,
        {
            let source = self.edges[i].source;
            let target = self.edges[i].target;
            let derivative = self.edges[i].function.backward_params(
                &self.nodes[source],
                &self.nodes[target],
            );
            self.edges[i].function.update(derivative);
            i += 1;
        }
    }
}

} // verus!
