//! Exact integer scalars: `i64` with arithmetic modulo two to the power 64.

use crate::scalar::{Ring, Scalar};
use rand::Rng;
use vstd::arithmetic::div_mod::{lemma_fundamental_div_mod, lemma_mod_multiples_vanish};
use vstd::math::abs;
use vstd::prelude::*;

verus! {

/// The number of values of `i64`.
pub open spec fn modulus() -> int {
    0x1_0000_0000_0000_0000
}

/// The `i64` that differs from `x` by a multiple of [`modulus`].
pub open spec fn wrap(x: int) -> i64 {
    let m = x % modulus();
    if m > i64::MAX {
        (m - modulus()) as i64
    } else {
        m as i64
    }
}

/// The quotient of `x` by one hundred, rounded toward zero.
pub open spec fn hundredth(x: int) -> int {
    if x >= 0 {
        x / 100
    } else {
        -((-x) / 100)
    }
}

/// `rand::Rng::gen` at type `i64`, on the generator that `rand::thread_rng`
/// keeps for the calling thread and seeds from the operating system: a sample
/// of the standard distribution, under which every value of the type may come.
/// Nothing is claimed of the value.
#[verifier::external_body]
fn sample() -> i64 {
    rand::thread_rng().gen::<i64>()
}

impl Scalar for i64 {
    open spec fn zero_spec() -> Self {
        0i64
    }

    open spec fn one_spec() -> Self {
        1i64
    }

    open spec fn plus_spec(self, rhs: Self) -> Self {
        wrap(self + rhs)
    }

    open spec fn minus_spec(self, rhs: Self) -> Self {
        wrap(self - rhs)
    }

    open spec fn times_spec(self, rhs: Self) -> Self {
        wrap(self * rhs)
    }

    open spec fn negated_spec(self) -> Self {
        wrap(-self)
    }

    open spec fn step_spec(self) -> Self {
        hundredth(self as int) as i64
    }

    open spec fn positive_spec(self) -> bool {
        self > 0
    }

    open spec fn close_spec(self, rhs: Self) -> bool {
        self == rhs
    }

    fn zero() -> (r: Self) {
        0i64
    }

    fn one() -> (r: Self) {
        1i64
    }

    fn plus(self, rhs: Self) -> (r: Self) {
        self.wrapping_add(rhs)
    }

    fn minus(self, rhs: Self) -> (r: Self) {
        self.wrapping_sub(rhs)
    }

    fn times(self, rhs: Self) -> (r: Self) {
        self.wrapping_mul(rhs)
    }

    fn negated(self) -> (r: Self) {
        0i64.wrapping_sub(self)
    }

    fn step(self) -> (r: Self) {
        self / 100
    }

    fn positive(self) -> (r: bool) {
        self > 0
    }

    fn close(self, rhs: Self) -> (r: bool) {
        self == rhs
    }

    fn random() -> Self {
        sample()
    }
}

/// [`wrap`] takes values that differ by a multiple of [`modulus`] to one value,
/// and differs from its argument by such a multiple.
pub proof fn lemma_wrap(x: int, k: int)
    ensures
        wrap(x + k * modulus()) == wrap(x),
        exists|q: int| wrap(x) == x + #[trigger] (q * modulus()),
{
    let m = modulus();
    lemma_mod_multiples_vanish(k, x, m);
    assert(m * k + x == x + k * m) by (nonlinear_arith);
    lemma_fundamental_div_mod(x, m);
    let q0 = -(x / m);
    assert(x % m == x + q0 * m) by (nonlinear_arith)
        requires
            x == m * (x / m) + (x % m),
            q0 == -(x / m),
    ;
    if x % m > i64::MAX {
        assert(x % m - m == x + (q0 - 1) * m) by (nonlinear_arith)
            requires
                x % m == x + q0 * m,
        ;
        assert(wrap(x) == x + (q0 - 1) * modulus());
    } else {
        assert(wrap(x) == x + q0 * modulus());
    }
}

/// A factor may be wrapped before the product is.
pub proof fn lemma_wrap_times(x: int, y: int)
    ensures
        wrap(wrap(x) * y) == wrap(x * y),
        wrap(y * wrap(x)) == wrap(y * x),
{
    let m = modulus();
    lemma_wrap(x, 0);
    let q = choose|q: int| wrap(x) == x + #[trigger] (q * modulus());
    let w = wrap(x) as int;
    assert(w * y == x * y + (q * y) * m) by (nonlinear_arith)
        requires
            w == x + q * m,
    ;
    assert(y * w == y * x + (q * y) * m) by (nonlinear_arith)
        requires
            w == x + q * m,
    ;
    lemma_wrap(x * y, q * y);
    lemma_wrap(y * x, q * y);
}

/// A term may be wrapped before the sum is.
pub proof fn lemma_wrap_plus(x: int, y: int)
    ensures
        wrap(wrap(x) + y) == wrap(x + y),
        wrap(y + wrap(x)) == wrap(y + x),
{
    lemma_wrap(x, 0);
    let q = choose|q: int| wrap(x) == x + #[trigger] (q * modulus());
    lemma_wrap(x + y, q);
    lemma_wrap(y + x, q);
}

/// A value that steps toward a target by the step of their difference does
/// not get farther from the target: the difference after the step is no larger
/// in absolute value than before.
pub proof fn lemma_step_toward(x: i64, t: i64)
    ensures
        ({
            let residual = t.minus_spec(x);
            let stepped = x.plus_spec(residual.step_spec());
            abs(t.minus_spec(stepped) as int) <= abs(residual as int)
        }),
{
    let residual = t.minus_spec(x);
    let step = residual.step_spec();
    let stepped = x.plus_spec(step);
    lemma_wrap(t - x, 0);
    let q = choose|q: int| wrap(t - x) == (t - x) + #[trigger] (q * modulus());
    lemma_wrap(x + step, 0);
    let p = choose|p: int| wrap(x + step) == (x + step) + #[trigger] (p * modulus());
    assert(t - stepped == (residual - step) + (-q - p) * modulus()) by (nonlinear_arith)
        requires
            residual == (t - x) + q * modulus(),
            stepped == (x + step) + p * modulus(),
    ;
    lemma_wrap(residual - step, -q - p);
    assert(wrap(residual - step) == residual - step);
}

impl Ring for i64 {
    proof fn plus_commutes(a: Self, b: Self) {
    }

    proof fn plus_associates(a: Self, b: Self, c: Self) {
        lemma_wrap_plus(a + b, c as int);
        lemma_wrap_plus(b + c, a as int);
    }

    proof fn plus_zero(a: Self) {
    }

    proof fn plus_negated(a: Self) {
        lemma_wrap_plus(-a, a as int);
    }

    proof fn minus_is_plus_negated(a: Self, b: Self) {
        lemma_wrap_plus(-b, a as int);
    }

    proof fn times_commutes(a: Self, b: Self) {
        assert(a * b == b * a) by (nonlinear_arith);
    }

    proof fn times_associates(a: Self, b: Self, c: Self) {
        lemma_wrap_times(a * b, c as int);
        lemma_wrap_times(b * c, a as int);
        assert((a * b) * c == a * (b * c)) by (nonlinear_arith);
    }

    proof fn times_one(a: Self) {
    }

    proof fn times_distributes(a: Self, b: Self, c: Self) {
        lemma_wrap_times(b + c, a as int);
        lemma_wrap_plus(a * b, wrap(a * c) as int);
        lemma_wrap_plus(a * c, a * b);
        assert(a * (b + c) == a * b + a * c) by (nonlinear_arith);
    }

    proof fn zero_not_positive() {
    }

    proof fn step_zero() {
    }
}

} // verus!
