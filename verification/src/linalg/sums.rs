//! Finite sums over the scalars of a ring.
//!
//! [`sum_to`] adds its terms from the left. In a ring the order does not
//! matter, and the lemmas here are the consequences that the laws of the
//! matrix algebra rest on.

use crate::linalg::model::sum_to;
use crate::scalar::{lemma_times_distributes_right, lemma_times_zero, lemma_zero_plus, Ring, Scalar};
use vstd::prelude::*;

verus! {

/// Sums of equal terms are equal.
pub proof fn lemma_sum_congruent<S: Scalar>(n: nat, f: spec_fn(int) -> S, g: spec_fn(int) -> S)
    requires
        forall|k: int| 0 <= k < n ==> #[trigger] f(k) == g(k),
    ensures
        sum_to(n, f) == sum_to(n, g),
    decreases n,
{
    if n > 0 {
        lemma_sum_congruent((n - 1) as nat, f, g);
    }
}

/// A sum of zeros is zero.
pub proof fn lemma_sum_of_zeros<S: Ring>(n: nat, f: spec_fn(int) -> S)
    requires
        forall|k: int| 0 <= k < n ==> #[trigger] f(k) == S::zero_spec(),
    ensures
        sum_to(n, f) == S::zero_spec(),
    decreases n,
{
    if n > 0 {
        lemma_sum_of_zeros((n - 1) as nat, f);
        S::plus_zero(S::zero_spec());
    }
}

/// A sum with one term that may differ from zero is that term.
pub proof fn lemma_sum_of_one_term<S: Ring>(n: nat, f: spec_fn(int) -> S, p: int)
    requires
        0 <= p < n,
        forall|k: int| 0 <= k < n && k != p ==> #[trigger] f(k) == S::zero_spec(),
    ensures
        sum_to(n, f) == f(p),
    decreases n,
{
    if p == n - 1 {
        lemma_sum_of_zeros((n - 1) as nat, f);
        lemma_zero_plus(f(p));
    } else {
        lemma_sum_of_one_term((n - 1) as nat, f, p);
        S::plus_zero(f(p));
    }
}

/// The sum of termwise sums is the sum of the two sums.
pub proof fn lemma_sum_of_sums<S: Ring>(
    n: nat,
    f: spec_fn(int) -> S,
    g: spec_fn(int) -> S,
    h: spec_fn(int) -> S,
)
    requires
        forall|k: int| 0 <= k < n ==> #[trigger] h(k) == f(k).plus_spec(g(k)),
    ensures
        sum_to(n, h) == sum_to(n, f).plus_spec(sum_to(n, g)),
    decreases n,
{
    if n == 0 {
        S::plus_zero(S::zero_spec());
    } else {
        let m = (n - 1) as nat;
        lemma_sum_of_sums(m, f, g, h);
        let a = sum_to(m, f);
        let b = sum_to(m, g);
        let x = f(n - 1);
        let y = g(n - 1);
        // (a + b) + (x + y) == (a + x) + (b + y)
        S::plus_associates(a, b, x.plus_spec(y));
        S::plus_associates(b, x, y);
        S::plus_commutes(b, x);
        S::plus_associates(x, b, y);
        S::plus_associates(a, x, b.plus_spec(y));
    }
}

/// A factor common to all terms on the left can be taken out of the sum.
pub proof fn lemma_sum_factor_left<S: Ring>(
    n: nat,
    c: S,
    f: spec_fn(int) -> S,
    h: spec_fn(int) -> S,
)
    requires
        forall|k: int| 0 <= k < n ==> #[trigger] h(k) == c.times_spec(f(k)),
    ensures
        sum_to(n, h) == c.times_spec(sum_to(n, f)),
    decreases n,
{
    if n == 0 {
        lemma_times_zero(c);
    } else {
        let m = (n - 1) as nat;
        lemma_sum_factor_left(m, c, f, h);
        S::times_distributes(c, sum_to(m, f), f(n - 1));
    }
}

/// A factor common to all terms on the right can be taken out of the sum.
pub proof fn lemma_sum_factor_right<S: Ring>(
    n: nat,
    f: spec_fn(int) -> S,
    c: S,
    h: spec_fn(int) -> S,
)
    requires
        forall|k: int| 0 <= k < n ==> #[trigger] h(k) == f(k).times_spec(c),
    ensures
        sum_to(n, h) == sum_to(n, f).times_spec(c),
    decreases n,
{
    if n == 0 {
        lemma_times_zero(c);
    } else {
        let m = (n - 1) as nat;
        lemma_sum_factor_right(m, f, c, h);
        lemma_times_distributes_right(sum_to(m, f), f(n - 1), c);
    }
}

/// A sum of sums can be taken in either order: with `by_first(i)` the sum of
/// `term(i, j)` over `j` and `by_second(j)` the sum of `term(i, j)` over `i`,
/// the sum of `by_first` over `i` is the sum of `by_second` over `j`.
pub proof fn lemma_sum_exchange<S: Ring>(
    n: nat,
    m: nat,
    term: spec_fn(int, int) -> S,
    by_first: spec_fn(int) -> S,
    by_second: spec_fn(int) -> S,
)
    requires
        forall|i: int| 0 <= i < n ==> #[trigger] by_first(i) == sum_to(m, |j: int| term(i, j)),
        forall|j: int| 0 <= j < m ==> #[trigger] by_second(j) == sum_to(n, |i: int| term(i, j)),
    ensures
        sum_to(n, by_first) == sum_to(m, by_second),
    decreases n,
{
    if n == 0 {
        lemma_sum_of_zeros(m, by_second);
    } else {
        let p = (n - 1) as nat;
        let shorter = |j: int| sum_to(p, |i: int| term(i, j));
        let last = |j: int| term(n - 1, j);
        lemma_sum_exchange(p, m, term, by_first, shorter);
        assert forall|j: int| 0 <= j < m implies #[trigger] by_second(j) == shorter(j).plus_spec(
            last(j),
        ) by {
            let column = |i: int| term(i, j);
            assert(by_second(j) == sum_to(n, column));
            assert(column(n - 1) == term(n - 1, j));
        }
        lemma_sum_of_sums(m, shorter, last, by_second);
        assert(by_first(n - 1) == sum_to(m, last));
    }
}

} // verus!
