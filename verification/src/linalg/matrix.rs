//! Dense matrices: rectangular arrays of scalars with shape-checked arithmetic.
//!
//! Every operation allocates its result, except `add_assign` and `sub_assign`.
//! An operation on two operands asks in its `requires` that their shapes fit;
//! its `ensures` gives the result as a value of the model in
//! [`crate::linalg::model`].

use crate::linalg::model::{sum_to, MatrixView};
use crate::linalg::vector::Vector;
use crate::scalar::Scalar;
use vstd::prelude::*;
use vstd::std_specs::cmp::PartialEqSpecImpl;

verus! {

/// A matrix of `rows` rows and `cols` columns, held row by row.
#[derive(Debug)]
pub struct Matrix<S> {
    pub rows: usize,
    pub cols: usize,
    pub data: Vec<Vec<S>>,
}

impl<S: Scalar> View for Matrix<S> {
    type V = MatrixView<S>;

    open spec fn view(&self) -> MatrixView<S> {
        MatrixView {
            rows: self.rows as nat,
            cols: self.cols as nat,
            data: Seq::new(self.data@.len(), |i: int| self.data@[i]@),
        }
    }
}

impl<S: Scalar> Matrix<S> {
    /// `data` holds `rows` rows of `cols` entries each.
    pub open spec fn wf(&self) -> bool {
        &&& self.data@.len() == self.rows
        &&& forall|i: int| 0 <= i < self.rows ==> (#[trigger] self.data@[i])@.len() == self.cols
    }

    /// A matrix is the model whose shape it has and whose entries it holds.
    pub proof fn lemma_view_is(&self, expected: MatrixView<S>)
        requires
            self.wf(),
            expected.wf(),
            self.rows == expected.rows,
            self.cols == expected.cols,
            forall|i: int, j: int|
                0 <= i < self.rows && 0 <= j < self.cols ==> #[trigger] self.data@[i]@[j]
                    == expected.data[i][j],
        ensures
            self@ == expected,
    {
        assert forall|i: int| 0 <= i < self.rows implies #[trigger] self@.data[i]
            == expected.data[i] by {}
    }

    /// Whether `data` holds `rows` rows of `cols` entries each.
    fn is_wf(&self) -> (r: bool)
        ensures
            r == self.wf(),
    {
        if self.data.len() != self.rows {
            return false;
        }
        let mut i: usize = 0;
        while i < self.rows
            invariant
                self.data@.len() == self.rows,
                i <= self.rows,
                forall|k: int| 0 <= k < i ==> (#[trigger] self.data@[k])@.len() == self.cols,
            decreases self.rows - i,
        {
            if self.data[i].len() != self.cols {
                return false;
            }
            i += 1;
        }
        true
    }

    /// The matrix that holds the given rows. With no rows it has no columns.
    pub fn new(data: Vec<Vec<S>>) -> (r: Self)
        requires
            forall|i: int| 0 <= i < data@.len() ==> (#[trigger] data@[i])@.len() == data@[0]@.len(),
        ensures
            r.wf(),
            r.data == data,
            r.rows == data@.len(),
            r.cols == (if data@.len() > 0 {
                data@[0]@.len()
            } else {
                0
            }),
    {
        let rows = data.len();
        let cols = if rows > 0 {
            data[0].len()
        } else {
            0
        };
        Self { rows, cols, data }
    }

    /// The matrix of the given shape that holds `value` everywhere.
    fn filled(rows: usize, cols: usize, value: S) -> (r: Self)
        ensures
            r.wf(),
            r@ == MatrixView::filled(rows as nat, cols as nat, value),
    {
        let mut data: Vec<Vec<S>> = Vec::new();
        let mut i: usize = 0;
        while i < rows
            invariant
                i <= rows,
                data@.len() == i,
                forall|k: int| 0 <= k < i ==> (#[trigger] data@[k])@.len() == cols,
                forall|k: int, l: int|
                    0 <= k < i && 0 <= l < cols ==> #[trigger] data@[k]@[l] == value,
            decreases rows - i,
        {
            let mut row: Vec<S> = Vec::new();
            let mut j: usize = 0;
            while j < cols
                invariant
                    j <= cols,
                    row@.len() == j,
                    forall|l: int| 0 <= l < j ==> row@[l] == value,
                decreases cols - j,
            {
                row.push(value);
                j += 1;
            }
            data.push(row);
            i += 1;
        }
        let r = Self { rows, cols, data };
        proof {
            r.lemma_view_is(MatrixView::filled(rows as nat, cols as nat, value));
        }
        r
    }

    /// The matrix of the given shape that holds one everywhere.
    pub fn ones(rows: usize, cols: usize) -> (r: Self)
        ensures
            r.wf(),
            r@ == MatrixView::<S>::ones(rows as nat, cols as nat),
    {
        Self::filled(rows, cols, S::one())
    }

    /// The matrix of the given shape that holds zero everywhere.
    pub fn zeros(rows: usize, cols: usize) -> (r: Self)
        ensures
            r.wf(),
            r@ == MatrixView::<S>::zeros(rows as nat, cols as nat),
    {
        Self::filled(rows, cols, S::zero())
    }

    /// The square matrix with one on the diagonal and zero elsewhere.
    pub fn identity(size: usize) -> (r: Self)
        ensures
            r.wf(),
            r@ == MatrixView::<S>::identity(size as nat),
    {
        let mut data: Vec<Vec<S>> = Vec::new();
        let mut i: usize = 0;
        while i < size
            invariant
                i <= size,
                data@.len() == i,
                forall|k: int| 0 <= k < i ==> (#[trigger] data@[k])@.len() == size,
                forall|k: int, l: int|
                    0 <= k < i && 0 <= l < size ==> #[trigger] data@[k]@[l] == (if k == l {
                        S::one_spec()
                    } else {
                        S::zero_spec()
                    }),
            decreases size - i,
        {
            let mut row: Vec<S> = Vec::new();
            let mut j: usize = 0;
            while j < size
                invariant
                    j <= size,
                    row@.len() == j,
                    forall|l: int|
                        0 <= l < j ==> row@[l] == (if i == l {
                            S::one_spec()
                        } else {
                            S::zero_spec()
                        }),
                decreases size - j,
            {
                if i == j {
                    row.push(S::one());
                } else {
                    row.push(S::zero());
                }
                j += 1;
            }
            data.push(row);
            i += 1;
        }
        let r = Self { rows: size, cols: size, data };
        proof {
            r.lemma_view_is(MatrixView::identity(size as nat));
        }
        r
    }

    /// The matrix of the given shape whose entries are the results of as many
    /// calls of `sample`, made row by row.
    pub fn generate<F: Fn() -> S>(rows: usize, cols: usize, sample: F) -> (r: Self)
        requires
            call_requires(sample, ()),
        ensures
            r.wf(),
            r.rows == rows,
            r.cols == cols,
            forall|i: int, j: int|
                0 <= i < rows && 0 <= j < cols ==> call_ensures(sample, (), #[trigger] r.data@[i]@[j]),
    {
        let mut data: Vec<Vec<S>> = Vec::new();
        let mut i: usize = 0;
        while i < rows
            invariant
                call_requires(sample, ()),
                i <= rows,
                data@.len() == i,
                forall|k: int| 0 <= k < i ==> (#[trigger] data@[k])@.len() == cols,
                forall|k: int, l: int|
                    0 <= k < i && 0 <= l < cols ==> call_ensures(sample, (), #[trigger] data@[k]@[l]),
            decreases rows - i,
        {
            let mut row: Vec<S> = Vec::new();
            let mut j: usize = 0;
            while j < cols
                invariant
                    call_requires(sample, ()),
                    j <= cols,
                    row@.len() == j,
                    forall|l: int| 0 <= l < j ==> call_ensures(sample, (), #[trigger] row@[l]),
                decreases cols - j,
            {
                row.push(sample());
                j += 1;
            }
            data.push(row);
            i += 1;
        }
        Self { rows, cols, data }
    }

    /// A matrix of fresh samples of the standard distribution of the scalar
    /// type. The shape is fixed; the entries are not.
    pub fn random(rows: usize, cols: usize) -> (r: Self)
        ensures
            r.wf(),
            r.rows == rows,
            r.cols == cols,
    {
        Self::generate(rows, cols, || S::random())
    }
}

impl<S: Scalar> Matrix<S> {
    /// The matrix of the results of `f` on each entry, in the same shape.
    pub fn apply<F: Fn(S) -> S>(&self, f: F) -> (r: Self)
        requires
            self.wf(),
            forall|i: int, j: int|
                0 <= i < self.rows && 0 <= j < self.cols ==> call_requires(
                    f,
                    (#[trigger] self.data@[i]@[j],),
                ),
        ensures
            r.wf(),
            r@.same_shape(self@),
            forall|i: int, j: int|
                0 <= i < self.rows && 0 <= j < self.cols ==> call_ensures(
                    f,
                    (self.data@[i]@[j],),
                    #[trigger] r.data@[i]@[j],
                ),
    {
        let mut data: Vec<Vec<S>> = Vec::new();
        let mut i: usize = 0;
        while i < self.rows
            invariant
                self.wf(),
                forall|k: int, l: int|
                    0 <= k < self.rows && 0 <= l < self.cols ==> call_requires(
                        f,
                        (#[trigger] self.data@[k]@[l],),
                    ),
                i <= self.rows,
                data@.len() == i,
                forall|k: int| 0 <= k < i ==> (#[trigger] data@[k])@.len() == self.cols,
                forall|k: int, l: int|
                    0 <= k < i && 0 <= l < self.cols ==> call_ensures(
                        f,
                        (self.data@[k]@[l],),
                        #[trigger] data@[k]@[l],
                    ),
            decreases self.rows - i,
        {
            let mut row: Vec<S> = Vec::new();
            let mut j: usize = 0;
            while j < self.cols
                invariant
                    self.wf(),
                    forall|k: int, l: int|
                        0 <= k < self.rows && 0 <= l < self.cols ==> call_requires(
                            f,
                            (#[trigger] self.data@[k]@[l],),
                        ),
                    i < self.rows,
                    j <= self.cols,
                    row@.len() == j,
                    forall|l: int|
                        0 <= l < j ==> call_ensures(
                            f,
                            (self.data@[i as int]@[l],),
                            #[trigger] row@[l],
                        ),
                decreases self.cols - j,
            {
                row.push(f(self.data[i][j]));
                j += 1;
            }
            data.push(row);
            i += 1;
        }
        Self { rows: self.rows, cols: self.cols, data }
    }

    /// The matrix with rows and columns exchanged.
    pub fn transpose(&self) -> (r: Self)
        requires
            self.wf(),
        ensures
            r.wf(),
            r@ == self@.transposed(),
    {
        let mut data: Vec<Vec<S>> = Vec::new();
        let mut i: usize = 0;
        while i < self.cols
            invariant
                self.wf(),
                i <= self.cols,
                data@.len() == i,
                forall|k: int| 0 <= k < i ==> (#[trigger] data@[k])@.len() == self.rows,
                forall|k: int, l: int|
                    0 <= k < i && 0 <= l < self.rows ==> #[trigger] data@[k]@[l]
                        == self.data@[l]@[k],
            decreases self.cols - i,
        {
            let mut row: Vec<S> = Vec::new();
            let mut j: usize = 0;
            while j < self.rows
                invariant
                    self.wf(),
                    i < self.cols,
                    j <= self.rows,
                    row@.len() == j,
                    forall|l: int| 0 <= l < j ==> #[trigger] row@[l] == self.data@[l]@[i as int],
                decreases self.rows - j,
            {
                row.push(self.data[j][i]);
                j += 1;
            }
            data.push(row);
            i += 1;
        }
        let r = Self { rows: self.cols, cols: self.rows, data };
        proof {
            r.lemma_view_is(self@.transposed());
        }
        r
    }

    /// The matrix product `self · other`.
    pub fn matmul(&self, other: &Matrix<S>) -> (r: Matrix<S>)
        requires
            self.wf(),
            other.wf(),
            self.cols == other.rows,
        ensures
            r.wf(),
            r@ == self@.matmul(other@),
    {
        let mut data: Vec<Vec<S>> = Vec::new();
        let mut i: usize = 0;
        while i < self.rows
            invariant
                self.wf(),
                other.wf(),
                self.cols == other.rows,
                i <= self.rows,
                data@.len() == i,
                forall|k: int| 0 <= k < i ==> (#[trigger] data@[k])@.len() == other.cols,
                forall|k: int, l: int|
                    0 <= k < i && 0 <= l < other.cols ==> #[trigger] data@[k]@[l] == sum_to(
                        self.cols as nat,
                        self@.dot_terms(other@, k, l),
                    ),
            decreases self.rows - i,
        {
            let mut row: Vec<S> = Vec::new();
            let mut j: usize = 0;
            while j < other.cols
                invariant
                    self.wf(),
                    other.wf(),
                    self.cols == other.rows,
                    i < self.rows,
                    j <= other.cols,
                    row@.len() == j,
                    forall|l: int|
                        0 <= l < j ==> #[trigger] row@[l] == sum_to(
                            self.cols as nat,
                            self@.dot_terms(other@, i as int, l),
                        ),
                decreases other.cols - j,
            {
                let mut acc = S::zero();
                let mut k: usize = 0;
                while k < self.cols
                    invariant
                        self.wf(),
                        other.wf(),
                        self.cols == other.rows,
                        i < self.rows,
                        j < other.cols,
                        k <= self.cols,
                        acc == sum_to(k as nat, self@.dot_terms(other@, i as int, j as int)),
                    decreases self.cols - k,
                {
                    acc = acc.plus(self.data[i][k].times(other.data[k][j]));
                    k += 1;
                }
                row.push(acc);
                j += 1;
            }
            data.push(row);
            i += 1;
        }
        let r = Self { rows: self.rows, cols: other.cols, data };
        proof {
            r.lemma_view_is(self@.matmul(other@));
        }
        r
    }

    /// The sums along an axis: with `axis` 0 the sum of each column, with
    /// `axis` 1 the sum of each row.
    pub fn sum(&self, axis: usize) -> (r: Vector<S>)
        requires
            self.wf(),
            axis == 0 || axis == 1,
        ensures
            r.wf(),
            axis == 0 ==> r.size == self.cols && r@ == self@.column_sums(),
            axis == 1 ==> r.size == self.rows && r@ == self@.row_sums(),
    {
        let mut result: Vec<S> = Vec::new();
        if axis == 0 {
            let mut j: usize = 0;
            while j < self.cols
                invariant
                    self.wf(),
                    j <= self.cols,
                    result@.len() == j,
                    forall|l: int|
                        0 <= l < j ==> #[trigger] result@[l] == sum_to(
                            self.rows as nat,
                            self@.column(l),
                        ),
                decreases self.cols - j,
            {
                let mut acc = S::zero();
                let mut i: usize = 0;
                while i < self.rows
                    invariant
                        self.wf(),
                        j < self.cols,
                        i <= self.rows,
                        acc == sum_to(i as nat, self@.column(j as int)),
                    decreases self.rows - i,
                {
                    acc = acc.plus(self.data[i][j]);
                    i += 1;
                }
                result.push(acc);
                j += 1;
            }
        } else {
            let mut i: usize = 0;
            while i < self.rows
                invariant
                    self.wf(),
                    i <= self.rows,
                    result@.len() == i,
                    forall|k: int|
                        0 <= k < i ==> #[trigger] result@[k] == sum_to(
                            self.cols as nat,
                            self@.row(k),
                        ),
                decreases self.rows - i,
            {
                let mut acc = S::zero();
                let mut j: usize = 0;
                while j < self.cols
                    invariant
                        self.wf(),
                        i < self.rows,
                        j <= self.cols,
                        acc == sum_to(j as nat, self@.row(i as int)),
                    decreases self.cols - j,
                {
                    acc = acc.plus(self.data[i][j]);
                    j += 1;
                }
                result.push(acc);
                i += 1;
            }
        }
        Vector::new(result)
    }
}

impl<S: Scalar> Matrix<S> {
    /// The entrywise sum of two matrices of one shape.
    pub fn add(&self, other: &Matrix<S>) -> (r: Matrix<S>)
        requires
            self.wf(),
            other.wf(),
            self.rows == other.rows,
            self.cols == other.cols,
        ensures
            r.wf(),
            r@ == self@.plus(other@),
    {
        let mut data: Vec<Vec<S>> = Vec::new();
        let mut i: usize = 0;
        while i < self.rows
            invariant
                self.wf(),
                other.wf(),
                self.rows == other.rows,
                self.cols == other.cols,
                i <= self.rows,
                data@.len() == i,
                forall|k: int| 0 <= k < i ==> (#[trigger] data@[k])@.len() == self.cols,
                forall|k: int, l: int|
                    0 <= k < i && 0 <= l < self.cols ==> #[trigger] data@[k]@[l]
                        == self.data@[k]@[l].plus_spec(other.data@[k]@[l]),
            decreases self.rows - i,
        {
            let mut row: Vec<S> = Vec::new();
            let mut j: usize = 0;
            while j < self.cols
                invariant
                    self.wf(),
                    other.wf(),
                    self.rows == other.rows,
                    self.cols == other.cols,
                    i < self.rows,
                    j <= self.cols,
                    row@.len() == j,
                    forall|l: int|
                        0 <= l < j ==> #[trigger] row@[l] == self.data@[i as int]@[l].plus_spec(
                            other.data@[i as int]@[l],
                        ),
                decreases self.cols - j,
            {
                row.push(self.data[i][j].plus(other.data[i][j]));
                j += 1;
            }
            data.push(row);
            i += 1;
        }
        let r = Self { rows: self.rows, cols: self.cols, data };
        proof {
            r.lemma_view_is(self@.plus(other@));
        }
        r
    }

    /// The matrix with `vector` added to each of its rows.
    pub fn add_vector(&self, vector: &Vector<S>) -> (r: Matrix<S>)
        requires
            self.wf(),
            vector.wf(),
            self.cols == vector.size,
        ensures
            r.wf(),
            r@ == self@.plus_row(vector@),
    {
        let mut data: Vec<Vec<S>> = Vec::new();
        let mut i: usize = 0;
        while i < self.rows
            invariant
                self.wf(),
                vector.wf(),
                self.cols == vector.size,
                i <= self.rows,
                data@.len() == i,
                forall|k: int| 0 <= k < i ==> (#[trigger] data@[k])@.len() == self.cols,
                forall|k: int, l: int|
                    0 <= k < i && 0 <= l < self.cols ==> #[trigger] data@[k]@[l]
                        == self.data@[k]@[l].plus_spec(vector@[l]),
            decreases self.rows - i,
        {
            let mut row: Vec<S> = Vec::new();
            let mut j: usize = 0;
            while j < self.cols
                invariant
                    self.wf(),
                    vector.wf(),
                    self.cols == vector.size,
                    i < self.rows,
                    j <= self.cols,
                    row@.len() == j,
                    forall|l: int|
                        0 <= l < j ==> #[trigger] row@[l] == self.data@[i as int]@[l].plus_spec(vector@[l]),
                decreases self.cols - j,
            {
                row.push(self.data[i][j].plus(vector.data[j]));
                j += 1;
            }
            data.push(row);
            i += 1;
        }
        let r = Self { rows: self.rows, cols: self.cols, data };
        proof {
            r.lemma_view_is(self@.plus_row(vector@));
        }
        r
    }

    /// The matrix with `scalar` added to each entry.
    pub fn add_scalar(&self, scalar: S) -> (r: Matrix<S>)
        requires
            self.wf(),
        ensures
            r.wf(),
            r@ == self@.plus_scalar(scalar),
    {
        let mut data: Vec<Vec<S>> = Vec::new();
        let mut i: usize = 0;
        while i < self.rows
            invariant
                self.wf(),
                i <= self.rows,
                data@.len() == i,
                forall|k: int| 0 <= k < i ==> (#[trigger] data@[k])@.len() == self.cols,
                forall|k: int, l: int|
                    0 <= k < i && 0 <= l < self.cols ==> #[trigger] data@[k]@[l]
                        == self.data@[k]@[l].plus_spec(scalar),
            decreases self.rows - i,
        {
            let mut row: Vec<S> = Vec::new();
            let mut j: usize = 0;
            while j < self.cols
                invariant
                    self.wf(),
                    i < self.rows,
                    j <= self.cols,
                    row@.len() == j,
                    forall|l: int|
                        0 <= l < j ==> #[trigger] row@[l] == self.data@[i as int]@[l].plus_spec(scalar),
                decreases self.cols - j,
            {
                row.push(self.data[i][j].plus(scalar));
                j += 1;
            }
            data.push(row);
            i += 1;
        }
        let r = Self { rows: self.rows, cols: self.cols, data };
        proof {
            r.lemma_view_is(self@.plus_scalar(scalar));
        }
        r
    }

    /// Adds `other` to the matrix, entry by entry.
    pub fn add_assign(&mut self, other: &Matrix<S>)
        requires
            old(self).wf(),
            other.wf(),
            old(self).rows == other.rows,
            old(self).cols == other.cols,
        ensures
            final(self).wf(),
            final(self)@ == old(self)@.plus(other@),
    {
        let mut i: usize = 0;
        while i < self.rows
            invariant
                self.wf(),
                old(self).wf(),
                other.wf(),
                self.rows == old(self).rows,
                self.cols == old(self).cols,
                self.rows == other.rows,
                self.cols == other.cols,
                i <= self.rows,
                forall|k: int, l: int|
                    0 <= k < i && 0 <= l < self.cols ==> #[trigger] self.data@[k]@[l] == old(
                        self,
                    ).data@[k]@[l].plus_spec(other.data@[k]@[l]),
                forall|k: int| i <= k < self.rows ==> (#[trigger] self.data@[k])@ == old(self).data@[k]@,
            decreases self.rows - i,
        {
            let mut j: usize = 0;
            while j < self.cols
                invariant
                    self.wf(),
                    old(self).wf(),
                    other.wf(),
                    self.rows == old(self).rows,
                    self.cols == old(self).cols,
                    self.rows == other.rows,
                    self.cols == other.cols,
                    i < self.rows,
                    j <= self.cols,
                    forall|k: int, l: int|
                        0 <= k < i && 0 <= l < self.cols ==> #[trigger] self.data@[k]@[l] == old(
                            self,
                        ).data@[k]@[l].plus_spec(other.data@[k]@[l]),
                    forall|k: int|
                        i < k < self.rows ==> (#[trigger] self.data@[k])@ == old(self).data@[k]@,
                    forall|l: int|
                        0 <= l < j ==> #[trigger] self.data@[i as int]@[l] == old(
                            self,
                        ).data@[i as int]@[l].plus_spec(other.data@[i as int]@[l]),
                    forall|l: int|
                        j <= l < self.cols ==> #[trigger] self.data@[i as int]@[l] == old(
                            self,
                        ).data@[i as int]@[l],
                decreases self.cols - j,
            {
                let value = self.data[i][j].plus(other.data[i][j]);
                self.data[i][j] = value;
                j += 1;
            }
            i += 1;
        }
        proof {
            self.lemma_view_is(old(self)@.plus(other@));
        }
    }

    /// The entrywise (Hadamard) product of two matrices of one shape.
    pub fn mul(&self, other: &Matrix<S>) -> (r: Matrix<S>)
        requires
            self.wf(),
            other.wf(),
            self.rows == other.rows,
            self.cols == other.cols,
        ensures
            r.wf(),
            r@ == self@.hadamard(other@),
    {
        let mut data: Vec<Vec<S>> = Vec::new();
        let mut i: usize = 0;
        while i < self.rows
            invariant
                self.wf(),
                other.wf(),
                self.rows == other.rows,
                self.cols == other.cols,
                i <= self.rows,
                data@.len() == i,
                forall|k: int| 0 <= k < i ==> (#[trigger] data@[k])@.len() == self.cols,
                forall|k: int, l: int|
                    0 <= k < i && 0 <= l < self.cols ==> #[trigger] data@[k]@[l]
                        == self.data@[k]@[l].times_spec(other.data@[k]@[l]),
            decreases self.rows - i,
        {
            let mut row: Vec<S> = Vec::new();
            let mut j: usize = 0;
            while j < self.cols
                invariant
                    self.wf(),
                    other.wf(),
                    self.rows == other.rows,
                    self.cols == other.cols,
                    i < self.rows,
                    j <= self.cols,
                    row@.len() == j,
                    forall|l: int|
                        0 <= l < j ==> #[trigger] row@[l] == self.data@[i as int]@[l].times_spec(
                            other.data@[i as int]@[l],
                        ),
                decreases self.cols - j,
            {
                row.push(self.data[i][j].times(other.data[i][j]));
                j += 1;
            }
            data.push(row);
            i += 1;
        }
        let r = Self { rows: self.rows, cols: self.cols, data };
        proof {
            r.lemma_view_is(self@.hadamard(other@));
        }
        r
    }

    /// The matrix with each entry multiplied by `scalar`.
    pub fn mul_scalar(&self, scalar: S) -> (r: Matrix<S>)
        requires
            self.wf(),
        ensures
            r.wf(),
            r@ == self@.times_scalar(scalar),
    {
        let mut data: Vec<Vec<S>> = Vec::new();
        let mut i: usize = 0;
        while i < self.rows
            invariant
                self.wf(),
                i <= self.rows,
                data@.len() == i,
                forall|k: int| 0 <= k < i ==> (#[trigger] data@[k])@.len() == self.cols,
                forall|k: int, l: int|
                    0 <= k < i && 0 <= l < self.cols ==> #[trigger] data@[k]@[l]
                        == self.data@[k]@[l].times_spec(scalar),
            decreases self.rows - i,
        {
            let mut row: Vec<S> = Vec::new();
            let mut j: usize = 0;
            while j < self.cols
                invariant
                    self.wf(),
                    i < self.rows,
                    j <= self.cols,
                    row@.len() == j,
                    forall|l: int|
                        0 <= l < j ==> #[trigger] row@[l] == self.data@[i as int]@[l].times_spec(scalar),
                decreases self.cols - j,
            {
                row.push(self.data[i][j].times(scalar));
                j += 1;
            }
            data.push(row);
            i += 1;
        }
        let r = Self { rows: self.rows, cols: self.cols, data };
        proof {
            r.lemma_view_is(self@.times_scalar(scalar));
        }
        r
    }

    /// The entrywise difference of two matrices of one shape.
    pub fn sub(&self, other: &Matrix<S>) -> (r: Matrix<S>)
        requires
            self.wf(),
            other.wf(),
            self.rows == other.rows,
            self.cols == other.cols,
        ensures
            r.wf(),
            r@ == self@.minus(other@),
    {
        let mut data: Vec<Vec<S>> = Vec::new();
        let mut i: usize = 0;
        while i < self.rows
            invariant
                self.wf(),
                other.wf(),
                self.rows == other.rows,
                self.cols == other.cols,
                i <= self.rows,
                data@.len() == i,
                forall|k: int| 0 <= k < i ==> (#[trigger] data@[k])@.len() == self.cols,
                forall|k: int, l: int|
                    0 <= k < i && 0 <= l < self.cols ==> #[trigger] data@[k]@[l]
                        == self.data@[k]@[l].minus_spec(other.data@[k]@[l]),
            decreases self.rows - i,
        {
            let mut row: Vec<S> = Vec::new();
            let mut j: usize = 0;
            while j < self.cols
                invariant
                    self.wf(),
                    other.wf(),
                    self.rows == other.rows,
                    self.cols == other.cols,
                    i < self.rows,
                    j <= self.cols,
                    row@.len() == j,
                    forall|l: int|
                        0 <= l < j ==> #[trigger] row@[l] == self.data@[i as int]@[l].minus_spec(
                            other.data@[i as int]@[l],
                        ),
                decreases self.cols - j,
            {
                row.push(self.data[i][j].minus(other.data[i][j]));
                j += 1;
            }
            data.push(row);
            i += 1;
        }
        let r = Self { rows: self.rows, cols: self.cols, data };
        proof {
            r.lemma_view_is(self@.minus(other@));
        }
        r
    }

    /// Subtracts `other` from the matrix, entry by entry.
    pub fn sub_assign(&mut self, other: &Matrix<S>)
        requires
            old(self).wf(),
            other.wf(),
            old(self).rows == other.rows,
            old(self).cols == other.cols,
        ensures
            final(self).wf(),
            final(self)@ == old(self)@.minus(other@),
    {
        let mut i: usize = 0;
        while i < self.rows
            invariant
                self.wf(),
                old(self).wf(),
                other.wf(),
                self.rows == old(self).rows,
                self.cols == old(self).cols,
                self.rows == other.rows,
                self.cols == other.cols,
                i <= self.rows,
                forall|k: int, l: int|
                    0 <= k < i && 0 <= l < self.cols ==> #[trigger] self.data@[k]@[l] == old(
                        self,
                    ).data@[k]@[l].minus_spec(other.data@[k]@[l]),
                forall|k: int| i <= k < self.rows ==> (#[trigger] self.data@[k])@ == old(self).data@[k]@,
            decreases self.rows - i,
        {
            let mut j: usize = 0;
            while j < self.cols
                invariant
                    self.wf(),
                    old(self).wf(),
                    other.wf(),
                    self.rows == old(self).rows,
                    self.cols == old(self).cols,
                    self.rows == other.rows,
                    self.cols == other.cols,
                    i < self.rows,
                    j <= self.cols,
                    forall|k: int, l: int|
                        0 <= k < i && 0 <= l < self.cols ==> #[trigger] self.data@[k]@[l] == old(
                            self,
                        ).data@[k]@[l].minus_spec(other.data@[k]@[l]),
                    forall|k: int|
                        i < k < self.rows ==> (#[trigger] self.data@[k])@ == old(self).data@[k]@,
                    forall|l: int|
                        0 <= l < j ==> #[trigger] self.data@[i as int]@[l] == old(
                            self,
                        ).data@[i as int]@[l].minus_spec(other.data@[i as int]@[l]),
                    forall|l: int|
                        j <= l < self.cols ==> #[trigger] self.data@[i as int]@[l] == old(
                            self,
                        ).data@[i as int]@[l],
                decreases self.cols - j,
            {
                let value = self.data[i][j].minus(other.data[i][j]);
                self.data[i][j] = value;
                j += 1;
            }
            i += 1;
        }
        proof {
            self.lemma_view_is(old(self)@.minus(other@));
        }
    }

    /// The matrix with the sign of each entry changed.
    pub fn neg(&self) -> (r: Matrix<S>)
        requires
            self.wf(),
        ensures
            r.wf(),
            r@ == self@.negated(),
    {
        let mut data: Vec<Vec<S>> = Vec::new();
        let mut i: usize = 0;
        while i < self.rows
            invariant
                self.wf(),
                i <= self.rows,
                data@.len() == i,
                forall|k: int| 0 <= k < i ==> (#[trigger] data@[k])@.len() == self.cols,
                forall|k: int, l: int|
                    0 <= k < i && 0 <= l < self.cols ==> #[trigger] data@[k]@[l]
                        == self.data@[k]@[l].negated_spec(),
            decreases self.rows - i,
        {
            let mut row: Vec<S> = Vec::new();
            let mut j: usize = 0;
            while j < self.cols
                invariant
                    self.wf(),
                    i < self.rows,
                    j <= self.cols,
                    row@.len() == j,
                    forall|l: int|
                        0 <= l < j ==> #[trigger] row@[l] == self.data@[i as int]@[l].negated_spec(),
                decreases self.cols - j,
            {
                row.push(self.data[i][j].negated());
                j += 1;
            }
            data.push(row);
            i += 1;
        }
        let r = Self { rows: self.rows, cols: self.cols, data };
        proof {
            r.lemma_view_is(self@.negated());
        }
        r
    }
}

impl<S: Scalar> Clone for Matrix<S> {
    fn clone(&self) -> (r: Self)
        ensures
            r.rows == self.rows,
            r.cols == self.cols,
            r.data@.len() == self.data@.len(),
            forall|i: int| 0 <= i < self.data@.len() ==> (#[trigger] r.data@[i])@ == self.data@[i]@,
            r@ == self@,
            self.wf() ==> r.wf(),
    {
        let mut data: Vec<Vec<S>> = Vec::new();
        let mut i: usize = 0;
        while i < self.data.len()
            invariant
                i <= self.data@.len(),
                data@.len() == i,
                forall|k: int| 0 <= k < i ==> (#[trigger] data@[k])@ == self.data@[k]@,
            decreases self.data@.len() - i,
        {
            let row = &self.data[i];
            let mut copy: Vec<S> = Vec::new();
            let mut j: usize = 0;
            while j < row.len()
                invariant
                    j <= row@.len(),
                    copy@.len() == j,
                    forall|l: int| 0 <= l < j ==> copy@[l] == row@[l],
                decreases row@.len() - j,
            {
                copy.push(row[j]);
                j += 1;
            }
            data.push(copy);
            i += 1;
        }
        let r = Self { rows: self.rows, cols: self.cols, data };
        r
    }
}

impl<S: Scalar> PartialEqSpecImpl for Matrix<S> {
    open spec fn obeys_eq_spec() -> bool {
        true
    }

    /// Two well-formed matrices are equal when they have one shape and each
    /// entry of one is equal to the entry of the other up to the tolerance of the
    /// scalar type.
    open spec fn eq_spec(&self, other: &Self) -> bool {
        self.wf() && other.wf() && self@.close(other@)
    }
}

impl<S: Scalar> PartialEq for Matrix<S> {
    fn eq(&self, other: &Self) -> (r: bool)
    {
        if self.rows != other.rows || self.cols != other.cols {
            return false;
        }
        if !self.is_wf() || !other.is_wf() {
            return false;
        }
        let mut i: usize = 0;
        while i < self.rows
            invariant
                self.wf(),
                other.wf(),
                self.rows == other.rows,
                self.cols == other.cols,
                i <= self.rows,
                forall|k: int, l: int|
                    0 <= k < i && 0 <= l < self.cols ==> #[trigger] self@.at(k, l).close_spec(
                        other@.at(k, l),
                    ),
            decreases self.rows - i,
        {
            let mut j: usize = 0;
            while j < self.cols
                invariant
                    self.wf(),
                    other.wf(),
                    self.rows == other.rows,
                    self.cols == other.cols,
                    i < self.rows,
                    j <= self.cols,
                    forall|l: int|
                        0 <= l < j ==> #[trigger] self@.at(i as int, l).close_spec(
                            other@.at(i as int, l),
                        ),
                decreases self.cols - j,
            {
                if !self.data[i][j].close(other.data[i][j]) {
                    assert(!self@.at(i as int, j as int).close_spec(other@.at(i as int, j as int)));
                    return false;
                }
                j += 1;
            }
            i += 1;
        }
        true
    }
}

} // verus!
