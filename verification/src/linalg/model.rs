//! The mathematical model of matrices and vectors, over which the contracts of
//! the algebra are stated.
//!
//! A matrix is modelled by [`MatrixView`]: its two dimensions and its entries,
//! row by row. The dimensions are part of the model because a matrix with no
//! rows still has a number of columns. A vector is modelled by the sequence of
//! its entries.

use crate::scalar::Scalar;
use vstd::prelude::*;

verus! {

/// The terms `f(0)`, ..., `f(n - 1)` added up from the left, starting from zero.
///
/// The order is part of the definition: rounded addition does not associate.
pub open spec fn sum_to<S: Scalar>(n: nat, f: spec_fn(int) -> S) -> S
    decreases n,
{
    if n == 0 {
        S::zero_spec()
    } else {
        sum_to((n - 1) as nat, f).plus_spec(f(n - 1))
    }
}

/// The entries of a vector added up from the left.
pub open spec fn total<S: Scalar>(v: Seq<S>) -> S {
    sum_to(v.len(), |k: int| v[k])
}

/// `x` is zero or greater than zero.
pub open spec fn non_negative<S: Scalar>(x: S) -> bool {
    x.positive_spec() || x == S::zero_spec()
}

/// `max(0, x)`.
pub open spec fn relu_spec<S: Scalar>(x: S) -> S {
    if x.positive_spec() {
        x
    } else {
        S::zero_spec()
    }
}

/// The slope of [`relu_spec`] at `x`: one where `x` is positive, zero elsewhere,
/// at `x = 0` too.
pub open spec fn relu_deriv_spec<S: Scalar>(x: S) -> S {
    if x.positive_spec() {
        S::one_spec()
    } else {
        S::zero_spec()
    }
}

/// A matrix as a mathematical value.
#[verifier::ext_equal]
pub struct MatrixView<S> {
    pub rows: nat,
    pub cols: nat,
    pub data: Seq<Seq<S>>,
}

impl<S: Scalar> MatrixView<S> {
    /// There are `rows` rows, each of `cols` entries.
    pub open spec fn wf(self) -> bool {
        &&& self.data.len() == self.rows
        &&& forall|i: int| 0 <= i < self.rows ==> (#[trigger] self.data[i]).len() == self.cols
    }

    /// The entry in row `i` and column `j`.
    pub open spec fn at(self, i: int, j: int) -> S {
        self.data[i][j]
    }

    /// The matrix of the given shape whose entry `(i, j)` is `f(i, j)`.
    pub open spec fn from_fn(rows: nat, cols: nat, f: spec_fn(int, int) -> S) -> Self {
        MatrixView { rows, cols, data: Seq::new(rows, |i: int| Seq::new(cols, |j: int| f(i, j))) }
    }

    /// The matrix of the given shape that holds `value` everywhere.
    pub open spec fn filled(rows: nat, cols: nat, value: S) -> Self {
        Self::from_fn(rows, cols, |i: int, j: int| value)
    }

    /// The matrix of the given shape that holds zero everywhere.
    pub open spec fn zeros(rows: nat, cols: nat) -> Self {
        Self::filled(rows, cols, S::zero_spec())
    }

    /// The matrix of the given shape that holds one everywhere.
    pub open spec fn ones(rows: nat, cols: nat) -> Self {
        Self::filled(rows, cols, S::one_spec())
    }

    /// The square matrix with one on the diagonal and zero elsewhere.
    pub open spec fn identity(size: nat) -> Self {
        Self::from_fn(
            size,
            size,
            |i: int, j: int|
                if i == j {
                    S::one_spec()
                } else {
                    S::zero_spec()
                },
        )
    }

    /// The two matrices have the same shape.
    pub open spec fn same_shape(self, other: Self) -> bool {
        self.rows == other.rows && self.cols == other.cols
    }

    /// The entrywise image of the matrix under `f`.
    pub open spec fn map(self, f: spec_fn(S) -> S) -> Self {
        Self::from_fn(self.rows, self.cols, |i: int, j: int| f(self.at(i, j)))
    }

    /// The entrywise sum.
    pub open spec fn plus(self, other: Self) -> Self {
        Self::from_fn(self.rows, self.cols, |i: int, j: int| self.at(i, j).plus_spec(other.at(i, j)))
    }

    /// The entrywise difference.
    pub open spec fn minus(self, other: Self) -> Self {
        Self::from_fn(
            self.rows,
            self.cols,
            |i: int, j: int| self.at(i, j).minus_spec(other.at(i, j)),
        )
    }

    /// The entrywise (Hadamard) product.
    pub open spec fn hadamard(self, other: Self) -> Self {
        Self::from_fn(
            self.rows,
            self.cols,
            |i: int, j: int| self.at(i, j).times_spec(other.at(i, j)),
        )
    }

    /// The matrix with `v` added to each of its rows.
    pub open spec fn plus_row(self, v: Seq<S>) -> Self {
        Self::from_fn(self.rows, self.cols, |i: int, j: int| self.at(i, j).plus_spec(v[j]))
    }

    /// The matrix with `s` added to each entry.
    pub open spec fn plus_scalar(self, s: S) -> Self {
        self.map(|x: S| x.plus_spec(s))
    }

    /// The matrix with each entry multiplied by `s`.
    pub open spec fn times_scalar(self, s: S) -> Self {
        self.map(|x: S| x.times_spec(s))
    }

    /// The matrix with the sign of each entry changed.
    pub open spec fn negated(self) -> Self {
        self.map(|x: S| x.negated_spec())
    }

    /// The matrix with each entry scaled by the step size.
    pub open spec fn stepped(self) -> Self {
        self.map(|x: S| x.step_spec())
    }

    /// The matrix with [`relu_spec`] applied to each entry.
    pub open spec fn relu(self) -> Self {
        self.map(|x: S| relu_spec(x))
    }

    /// The matrix with [`relu_deriv_spec`] applied to each entry.
    pub open spec fn relu_deriv(self) -> Self {
        self.map(|x: S| relu_deriv_spec(x))
    }

    /// The matrix with rows and columns exchanged.
    pub open spec fn transposed(self) -> Self {
        Self::from_fn(self.cols, self.rows, |i: int, j: int| self.at(j, i))
    }

    /// The products that add up to entry `(i, j)` of `self · other`, by the
    /// index `k` that runs along row `i` of `self` and down column `j` of `other`.
    pub open spec fn dot_terms(self, other: Self, i: int, j: int) -> spec_fn(int) -> S {
        |k: int| self.at(i, k).times_spec(other.at(k, j))
    }

    /// The matrix product: entry `(i, j)` is the sum of `self[i][k] * other[k][j]`
    /// over `k`, added up from `k = 0`.
    pub open spec fn matmul(self, other: Self) -> Self {
        Self::from_fn(
            self.rows,
            other.cols,
            |i: int, j: int| sum_to(self.cols, self.dot_terms(other, i, j)),
        )
    }

    /// Column `j` from the top: the entries that add up to the sum of the column.
    pub open spec fn column(self, j: int) -> spec_fn(int) -> S {
        |i: int| self.at(i, j)
    }

    /// Row `i` from the left: the entries that add up to the sum of the row.
    pub open spec fn row(self, i: int) -> spec_fn(int) -> S {
        |j: int| self.at(i, j)
    }

    /// The sum of each column, added up from the first row down.
    pub open spec fn column_sums(self) -> Seq<S> {
        Seq::new(self.cols, |j: int| sum_to(self.rows, self.column(j)))
    }

    /// The sum of each row, added up from the first column on.
    pub open spec fn row_sums(self) -> Seq<S> {
        Seq::new(self.rows, |i: int| sum_to(self.cols, self.row(i)))
    }

    /// The two matrices have the same shape and each entry of one is equal to
    /// the entry of the other up to the tolerance of the scalar type.
    pub open spec fn close(self, other: Self) -> bool {
        &&& self.same_shape(other)
        &&& forall|i: int, j: int|
            0 <= i < self.rows && 0 <= j < self.cols ==> #[trigger] self.at(i, j).close_spec(
                other.at(i, j),
            )
    }
}

/// The entrywise image of a vector under `f`.
pub open spec fn map_seq<S: Scalar>(v: Seq<S>, f: spec_fn(S) -> S) -> Seq<S> {
    Seq::new(v.len(), |k: int| f(v[k]))
}

/// The entrywise sum of two vectors of one length.
pub open spec fn plus_seq<S: Scalar>(v: Seq<S>, w: Seq<S>) -> Seq<S> {
    Seq::new(v.len(), |k: int| v[k].plus_spec(w[k]))
}

/// The vector with each entry scaled by the step size.
pub open spec fn stepped_seq<S: Scalar>(v: Seq<S>) -> Seq<S> {
    map_seq(v, |x: S| x.step_spec())
}

} // verus!
