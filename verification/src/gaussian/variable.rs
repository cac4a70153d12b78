//! The node of the graph: a named row of scalars that is either observed
//! (fixed) or free.

use crate::graph::{views, Variable};
use crate::linalg::matrix::Matrix;
use crate::linalg::model::MatrixView;
use crate::scalar::Scalar;
use vstd::prelude::*;

verus! {

/// A variable as a mathematical value.
#[verifier::ext_equal]
pub struct VariableView<S> {
    pub name: Seq<char>,
    pub size: nat,
    pub data: MatrixView<S>,
    pub fixed: bool,
}

/// The row `data` moved along each of `derivatives` in turn: each step adds
/// the derivative scaled by the step size.
pub open spec fn moved<S: Scalar>(data: MatrixView<S>, derivatives: Seq<MatrixView<S>>) -> MatrixView<S>
    decreases derivatives.len(),
{
    if derivatives.len() == 0 {
        data
    } else {
        moved(data, derivatives.drop_last()).plus(derivatives.last().stepped())
    }
}

impl<S: Scalar> VariableView<S> {
    /// The value is one row of `size` scalars.
    pub open spec fn wf(self) -> bool {
        self.data.wf() && self.data.rows == 1 && self.data.cols == self.size
    }

    /// The variable after it has taken `derivatives`: unchanged if it is fixed,
    /// moved along each of them in turn if it is free.
    pub open spec fn updated(self, derivatives: Seq<MatrixView<S>>) -> Self {
        if self.fixed {
            self
        } else {
            VariableView { data: moved(self.data, derivatives), ..self }
        }
    }
}

/// A named row of `size` scalars. A fixed variable ignores every update.
#[derive(Debug)]
pub struct GaussianVariable<S> {
    pub name: String,
    pub size: usize,
    pub data: Matrix<S>,
    pub fixed: bool,
}

impl<S: Scalar> View for GaussianVariable<S> {
    type V = VariableView<S>;

    open spec fn view(&self) -> VariableView<S> {
        VariableView {
            name: self.name@,
            size: self.size as nat,
            data: self.data@,
            fixed: self.fixed,
        }
    }
}

impl<S: Scalar> GaussianVariable<S> {
    /// The value is a well-formed matrix of one row and `size` columns.
    pub open spec fn wf(&self) -> bool {
        self.data.wf() && self.data.rows == 1 && self.data.cols == self.size
    }

    /// The variable with the given name and value. Its size is the number of
    /// columns of the value, which has one row.
    pub fn new(name: &str, data: Matrix<S>, fixed: bool) -> (r: Self)
        requires
            data.wf(),
            data.rows == 1,
        ensures
            r.wf(),
            r.name@ == name@,
            r.size == data.cols,
            r.data == data,
            r.fixed == fixed,
    {
        let name = name.to_string();
        let size = data.cols;
        Self { name, size, data, fixed }
    }

    /// The value of the variable minus `other`, entry by entry.
    pub fn sub(&self, other: &Matrix<S>) -> (r: Matrix<S>)
        requires
            self.wf(),
            other.wf(),
            self.data.rows == other.rows,
            self.data.cols == other.cols,
        ensures
            r.wf(),
            r@ == self.data@.minus(other@),
    {
        self.data.sub(other)
    }

    /// Replaces the value by another of the same size.
    pub fn set_data(&mut self, data: Matrix<S>)
        requires
            data.wf(),
            data.rows == 1,
            data.cols == old(self).size,
        ensures
            final(self).wf(),
            final(self).data == data,
            final(self).name == old(self).name,
            final(self).size == old(self).size,
            final(self).fixed == old(self).fixed,
    {
        self.data = data;
    }
}

impl<S: Scalar> Variable for GaussianVariable<S> {
    type Elem = S;

    open spec fn valid(&self) -> bool {
        self.wf()
    }

    open spec fn size_spec(&self) -> nat {
        self.size as nat
    }

    open spec fn updated(&self, derivatives: Seq<MatrixView<S>>, after: &Self) -> bool {
        after@ == self@.updated(derivatives)
    }

    /// If the variable is free, adds each derivative, scaled by the step size,
    /// to the value, in order. A fixed variable stays as it is.
    fn update(&mut self, derivatives: &Vec<Matrix<S>>) {
        if !self.fixed {
            let mut k: usize = 0;
            while k < derivatives.len()
                invariant
                    self.wf(),
                    !self.fixed,
                    self.name == old(self).name,
                    self.size == old(self).size,
                    self.fixed == old(self).fixed,
                    k <= derivatives@.len(),
                    forall|l: int|
                        0 <= l < derivatives@.len() ==> (#[trigger] derivatives@[l]).wf()
                            && derivatives@[l].rows == 1 && derivatives@[l].cols == self.size,
                    self.data@ == moved(old(self).data@, views(derivatives@).take(k as int)),
                decreases derivatives@.len() - k,
            {
                let derivative = &derivatives[k];
                let step = |v: S| -> (r: S)
                    ensures
                        r == v.step_spec(),
                    { v.step() };
                let scaled = derivative.apply(step);
                proof {
                    scaled.lemma_view_is(derivative@.stepped());
                    let all = views(derivatives@);
                    assert(all.take(k + 1).drop_last() =~= all.take(k as int));
                }
                self.data.add_assign(&scaled);
                k += 1;
            }
            proof {
                let all = views(derivatives@);
                assert(all.take(all.len() as int) =~= all);
            }
        }
    }
}

impl<S: Scalar> Clone for GaussianVariable<S> {
    fn clone(&self) -> (r: Self)
        ensures
            r@ == self@,
            self.wf() ==> r.wf(),
    {
        let name = self.name.clone();
        let fixed = self.fixed;
        let size = self.size;
        let data = self.data.clone();
        Self { name, size, data, fixed }
    }
}

} // verus!
