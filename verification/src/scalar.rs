//! The numbers that matrices and vectors hold.
//!
//! The algebra and the solver are written once, for every type of number that
//! offers the operations of [`Scalar`]. What they compute is stated over the
//! `_spec` functions of the trait, so a contract such as "entry `(i, j)` of the
//! product is the sum over `k` of `a[i][k] * b[k][j]`, added up from `k = 0`"
//! holds of exact integers and of rounded reals alike. Identities that need
//! more than that, such as associativity, are stated for the scalars of
//! [`Ring`].

use vstd::prelude::*;

verus! {

/// A type of number with the operations that the matrix algebra, the
/// activations and the update rules use.
///
/// Every operation is total and comes in two forms: the executable method and
/// the `spec` function of the same name with `_spec` appended, which says what
/// the method returns. An implementation for rounded arithmetic takes its
/// executable operations themselves as what they return: nothing more can be
/// said of a rounded sum than that it is the rounded sum.
pub trait Scalar: Copy {
    /// The additive identity.
    spec fn zero_spec() -> Self;

    /// The multiplicative identity.
    spec fn one_spec() -> Self;

    /// The sum of two values.
    spec fn plus_spec(self, rhs: Self) -> Self;

    /// The difference of two values.
    spec fn minus_spec(self, rhs: Self) -> Self;

    /// The product of two values.
    spec fn times_spec(self, rhs: Self) -> Self;

    /// The value with its sign changed.
    spec fn negated_spec(self) -> Self;

    /// The value scaled by the step size of the solver, which is one hundredth.
    spec fn step_spec(self) -> Self;

    /// Whether the value is greater than zero.
    spec fn positive_spec(self) -> bool;

    /// Whether two values are equal up to the tolerance of the type.
    spec fn close_spec(self, rhs: Self) -> bool;

    /// The additive identity.
    fn zero() -> (r: Self)
        ensures
            r == Self::zero_spec(),
    ;

    /// The multiplicative identity.
    fn one() -> (r: Self)
        ensures
            r == Self::one_spec(),
    ;

    /// The sum of two values.
    fn plus(self, rhs: Self) -> (r: Self)
        ensures
            r == self.plus_spec(rhs),
    ;

    /// The difference of two values.
    fn minus(self, rhs: Self) -> (r: Self)
        ensures
            r == self.minus_spec(rhs),
    ;

    /// The product of two values.
    fn times(self, rhs: Self) -> (r: Self)
        ensures
            r == self.times_spec(rhs),
    ;

    /// The value with its sign changed.
    fn negated(self) -> (r: Self)
        ensures
            r == self.negated_spec(),
    ;

    /// The value scaled by the step size of the solver.
    fn step(self) -> (r: Self)
        ensures
            r == self.step_spec(),
    ;

    /// Whether the value is greater than zero.
    fn positive(self) -> (r: bool)
        ensures
            r == self.positive_spec(),
    ;

    /// Whether two values are equal up to the tolerance of the type.
    fn close(self, rhs: Self) -> (r: bool)
        ensures
            r == self.close_spec(rhs),
    ;

    /// A fresh sample of the standard distribution of the type. Nothing is
    /// promised of the value.
    fn random() -> Self;
}

/// The scalars whose arithmetic is exact: a commutative ring with unit, in
/// which zero is not positive and scaling zero by the step size leaves zero.
///
/// Rounded arithmetic does not obey these laws; the identities of the matrix
/// algebra that rest on them are stated for the implementors of this trait.
pub trait Ring: Scalar {
    /// Addition commutes.
    proof fn plus_commutes(a: Self, b: Self)
        ensures
            a.plus_spec(b) == b.plus_spec(a),
    ;

    /// Addition associates.
    proof fn plus_associates(a: Self, b: Self, c: Self)
        ensures
            a.plus_spec(b).plus_spec(c) == a.plus_spec(b.plus_spec(c)),
    ;

    /// Zero is neutral for addition.
    proof fn plus_zero(a: Self)
        ensures
            a.plus_spec(Self::zero_spec()) == a,
    ;

    /// A value and the value with its sign changed add up to zero.
    proof fn plus_negated(a: Self)
        ensures
            a.plus_spec(a.negated_spec()) == Self::zero_spec(),
    ;

    /// To subtract a value is to add it with its sign changed.
    proof fn minus_is_plus_negated(a: Self, b: Self)
        ensures
            a.minus_spec(b) == a.plus_spec(b.negated_spec()),
    ;

    /// Multiplication commutes.
    proof fn times_commutes(a: Self, b: Self)
        ensures
            a.times_spec(b) == b.times_spec(a),
    ;

    /// Multiplication associates.
    proof fn times_associates(a: Self, b: Self, c: Self)
        ensures
            a.times_spec(b).times_spec(c) == a.times_spec(b.times_spec(c)),
    ;

    /// One is neutral for multiplication.
    proof fn times_one(a: Self)
        ensures
            a.times_spec(Self::one_spec()) == a,
    ;

    /// Multiplication distributes over addition.
    proof fn times_distributes(a: Self, b: Self, c: Self)
        ensures
            a.times_spec(b.plus_spec(c)) == a.times_spec(b).plus_spec(a.times_spec(c)),
    ;

    /// Zero is not greater than zero.
    proof fn zero_not_positive()
        ensures
            !Self::zero_spec().positive_spec(),
    ;

    /// Zero scaled by the step size is zero.
    proof fn step_zero()
        ensures
            Self::zero_spec().step_spec() == Self::zero_spec(),
    ;
}

/// In a ring, equal sums with one first term have one second term.
pub proof fn lemma_plus_cancels<S: Ring>(a: S, b: S, c: S)
    requires
        a.plus_spec(b) == a.plus_spec(c),
    ensures
        b == c,
{
    let na = a.negated_spec();
    let zero = S::zero_spec();
    S::plus_negated(a);
    S::plus_commutes(a, na);
    S::plus_associates(na, a, b);
    S::plus_associates(na, a, c);
    S::plus_commutes(zero, b);
    S::plus_commutes(zero, c);
    S::plus_zero(b);
    S::plus_zero(c);
}

/// In a ring, any value times zero is zero, on either side.
pub proof fn lemma_times_zero<S: Ring>(a: S)
    ensures
        a.times_spec(S::zero_spec()) == S::zero_spec(),
        S::zero_spec().times_spec(a) == S::zero_spec(),
{
    let zero = S::zero_spec();
    let az = a.times_spec(zero);
    S::plus_zero(zero);
    S::times_distributes(a, zero, zero);
    S::plus_zero(az);
    lemma_plus_cancels(az, az, zero);
    S::times_commutes(a, zero);
}

/// In a ring, zero is neutral on the left too.
pub proof fn lemma_zero_plus<S: Ring>(a: S)
    ensures
        S::zero_spec().plus_spec(a) == a,
{
    S::plus_zero(a);
    S::plus_commutes(a, S::zero_spec());
}

/// In a ring, multiplication distributes over addition from the right too.
pub proof fn lemma_times_distributes_right<S: Ring>(a: S, b: S, c: S)
    ensures
        a.plus_spec(b).times_spec(c) == a.times_spec(c).plus_spec(b.times_spec(c)),
{
    S::times_commutes(a.plus_spec(b), c);
    S::times_distributes(c, a, b);
    S::times_commutes(c, a);
    S::times_commutes(c, b);
}

/// In a ring, a value minus itself is zero.
pub proof fn lemma_minus_self<S: Ring>(a: S)
    ensures
        a.minus_spec(a) == S::zero_spec(),
{
    S::minus_is_plus_negated(a, a);
    S::plus_negated(a);
}

/// In a ring, the sign of a difference changes when its two sides are exchanged.
pub proof fn lemma_negated_minus<S: Ring>(a: S, b: S)
    ensures
        a.minus_spec(b).negated_spec() == b.minus_spec(a),
{
    let na = a.negated_spec();
    let nb = b.negated_spec();
    let d = a.plus_spec(nb);
    let e = b.plus_spec(na);
    let zero = S::zero_spec();
    S::minus_is_plus_negated(a, b);
    S::minus_is_plus_negated(b, a);
    // d + e == 0
    S::plus_associates(a, nb, e);
    S::plus_associates(nb, b, na);
    S::plus_commutes(nb, b);
    S::plus_negated(b);
    lemma_zero_plus(na);
    S::plus_negated(a);
    assert(d.plus_spec(e) == zero);
    S::plus_negated(d);
    lemma_plus_cancels(d, e, d.negated_spec());
}

} // verus!
