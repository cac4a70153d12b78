//! The laws of the matrix algebra over the scalars of a ring.
//!
//! Each law is stated over the model of [`crate::linalg::model`], in which the
//! contracts of the executable operations give their results. The laws that
//! only move entries about hold for every scalar type; those that calculate
//! need the arithmetic to be exact.

use crate::linalg::model::{sum_to, total, MatrixView};
use crate::linalg::sums::{
    lemma_sum_congruent,
    lemma_sum_exchange,
    lemma_sum_factor_left,
    lemma_sum_factor_right,
    lemma_sum_of_one_term,
};
use crate::scalar::{lemma_minus_self, lemma_times_zero, Ring, Scalar};
use vstd::prelude::*;

verus! {

/// Two matrices of one shape with equal entries are equal.
pub proof fn lemma_equal_by_entries<S: Scalar>(a: MatrixView<S>, b: MatrixView<S>)
    requires
        a.wf(),
        b.wf(),
        a.same_shape(b),
        forall|i: int, j: int| 0 <= i < a.rows && 0 <= j < a.cols ==> a.at(i, j) == b.at(i, j),
    ensures
        a == b,
{
    assert forall|i: int| 0 <= i < a.rows implies #[trigger] a.data[i] == b.data[i] by {
        assert forall|j: int| 0 <= j < a.cols implies a.data[i][j] == b.data[i][j] by {
            assert(a.at(i, j) == b.at(i, j));
        }
    }
}

/// Matrix multiplication is associative: `(A · B) · C = A · (B · C)` for every
/// three matrices whose shapes fit.
pub proof fn lemma_matmul_associative<S: Ring>(a: MatrixView<S>, b: MatrixView<S>, c: MatrixView<S>)
    requires
        a.wf(),
        b.wf(),
        c.wf(),
        a.cols == b.rows,
        b.cols == c.rows,
    ensures
        a.matmul(b).matmul(c) == a.matmul(b.matmul(c)),
{
    let ab = a.matmul(b);
    let bc = b.matmul(c);
    let left = ab.matmul(c);
    let right = a.matmul(bc);
    assert forall|i: int, l: int| 0 <= i < a.rows && 0 <= l < c.cols implies left.at(i, l)
        == right.at(i, l) by {
        let term = |k: int, j: int| a.at(i, j).times_spec(b.at(j, k)).times_spec(c.at(k, l));
        let by_first = ab.dot_terms(c, i, l);
        let by_second = a.dot_terms(bc, i, l);
        assert forall|k: int| 0 <= k < b.cols implies #[trigger] by_first(k) == sum_to(
            a.cols,
            |j: int| term(k, j),
        ) by {
            let products = |j: int| term(k, j);
            lemma_sum_factor_right(a.cols, a.dot_terms(b, i, k), c.at(k, l), products);
        }
        assert forall|j: int| 0 <= j < a.cols implies #[trigger] by_second(j) == sum_to(
            b.cols,
            |k: int| term(k, j),
        ) by {
            let products = |k: int| term(k, j);
            let grouped = |k: int| a.at(i, j).times_spec(b.dot_terms(c, j, l)(k));
            lemma_sum_factor_left(b.cols, a.at(i, j), b.dot_terms(c, j, l), grouped);
            assert forall|k: int| 0 <= k < b.cols implies #[trigger] products(k) == grouped(k) by {
                S::times_associates(a.at(i, j), b.at(j, k), c.at(k, l));
            }
            lemma_sum_congruent(b.cols, products, grouped);
        }
        lemma_sum_exchange(b.cols, a.cols, term, by_first, by_second);
    }
    lemma_equal_by_entries(left, right);
}

/// The identity is neutral on the right: `A · I = A`.
pub proof fn lemma_matmul_identity<S: Ring>(a: MatrixView<S>)
    requires
        a.wf(),
    ensures
        a.matmul(MatrixView::identity(a.cols)) == a,
{
    let id = MatrixView::<S>::identity(a.cols);
    let product = a.matmul(id);
    assert forall|i: int, j: int| 0 <= i < a.rows && 0 <= j < a.cols implies product.at(i, j)
        == a.at(i, j) by {
        let terms = a.dot_terms(id, i, j);
        assert forall|k: int| 0 <= k < a.cols && k != j implies #[trigger] terms(k)
            == S::zero_spec() by {
            lemma_times_zero(a.at(i, k));
        }
        lemma_sum_of_one_term(a.cols, terms, j);
        S::times_one(a.at(i, j));
    }
    lemma_equal_by_entries(product, a);
}

/// Transposing twice gives the matrix back: `Aᵀᵀ = A`.
pub proof fn lemma_transpose_twice<S: Scalar>(a: MatrixView<S>)
    requires
        a.wf(),
    ensures
        a.transposed().transposed() == a,
{
    lemma_equal_by_entries(a.transposed().transposed(), a);
}

/// The transpose of a product is the product of the transposes in the other
/// order: `(A · B)ᵀ = Bᵀ · Aᵀ`.
pub proof fn lemma_transpose_of_product<S: Ring>(a: MatrixView<S>, b: MatrixView<S>)
    requires
        a.wf(),
        b.wf(),
        a.cols == b.rows,
    ensures
        a.matmul(b).transposed() == b.transposed().matmul(a.transposed()),
{
    let left = a.matmul(b).transposed();
    let right = b.transposed().matmul(a.transposed());
    assert forall|i: int, j: int| 0 <= i < b.cols && 0 <= j < a.rows implies left.at(i, j)
        == right.at(i, j) by {
        let forth = a.dot_terms(b, j, i);
        let back = b.transposed().dot_terms(a.transposed(), i, j);
        assert forall|k: int| 0 <= k < a.cols implies #[trigger] forth(k) == back(k) by {
            S::times_commutes(a.at(j, k), b.at(k, i));
        }
        lemma_sum_congruent(a.cols, forth, back);
    }
    lemma_equal_by_entries(left, right);
}

/// Addition commutes: `A + B = B + A` for two matrices of one shape.
pub proof fn lemma_plus_commutes<S: Ring>(a: MatrixView<S>, b: MatrixView<S>)
    requires
        a.wf(),
        b.wf(),
        a.same_shape(b),
    ensures
        a.plus(b) == b.plus(a),
{
    assert forall|i: int, j: int| 0 <= i < a.rows && 0 <= j < a.cols implies a.plus(b).at(i, j)
        == b.plus(a).at(i, j) by {
        S::plus_commutes(a.at(i, j), b.at(i, j));
    }
    lemma_equal_by_entries(a.plus(b), b.plus(a));
}

/// A matrix minus itself is the zero matrix of its shape: `A − A = 0`.
pub proof fn lemma_minus_self_is_zero<S: Ring>(a: MatrixView<S>)
    requires
        a.wf(),
    ensures
        a.minus(a) == MatrixView::<S>::zeros(a.rows, a.cols),
{
    let zeros = MatrixView::<S>::zeros(a.rows, a.cols);
    assert forall|i: int, j: int| 0 <= i < a.rows && 0 <= j < a.cols implies a.minus(a).at(i, j)
        == zeros.at(i, j) by {
        lemma_minus_self(a.at(i, j));
    }
    lemma_equal_by_entries(a.minus(a), zeros);
}

/// Summing along either axis first gives one grand total: there is one column
/// sum for each column and one row sum for each row, and the column sums add
/// up to what the row sums add up to.
pub proof fn lemma_axis_sums_agree<S: Ring>(a: MatrixView<S>)
    requires
        a.wf(),
    ensures
        a.column_sums().len() == a.cols,
        a.row_sums().len() == a.rows,
        total(a.column_sums()) == total(a.row_sums()),
{
    let columns = a.column_sums();
    let rows = a.row_sums();
    let term = |j: int, i: int| a.at(i, j);
    let by_column = |j: int| columns[j];
    let by_row = |i: int| rows[i];
    assert forall|j: int| 0 <= j < a.cols implies #[trigger] by_column(j) == sum_to(
        a.rows,
        |i: int| term(j, i),
    ) by {
        lemma_sum_congruent(a.rows, a.column(j), |i: int| term(j, i));
    }
    assert forall|i: int| 0 <= i < a.rows implies #[trigger] by_row(i) == sum_to(
        a.cols,
        |j: int| term(j, i),
    ) by {
        lemma_sum_congruent(a.cols, a.row(i), |j: int| term(j, i));
    }
    lemma_sum_exchange(a.cols, a.rows, term, by_column, by_row);
}

} // verus!
