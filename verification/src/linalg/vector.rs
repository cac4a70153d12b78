//! Vectors: the bias of a transform and the result of summing a matrix along
//! an axis.

use crate::linalg::model::plus_seq;
use crate::scalar::Scalar;
use vstd::prelude::*;

verus! {

/// A sequence of scalars together with its length.
#[derive(Debug)]
pub struct Vector<S> {
    pub size: usize,
    pub data: Vec<S>,
}

impl<S: Scalar> View for Vector<S> {
    type V = Seq<S>;

    open spec fn view(&self) -> Seq<S> {
        self.data@
    }
}

impl<S: Scalar> Vector<S> {
    /// `size` is the number of entries.
    pub open spec fn wf(&self) -> bool {
        self.size == self.data@.len()
    }

    /// The vector that holds the given entries.
    pub fn new(data: Vec<S>) -> (r: Self)
        ensures
            r.wf(),
            r.data == data,
    {
        let size = data.len();
        Self { size, data }
    }

    /// The vector of the given length that holds `value` everywhere.
    fn filled(size: usize, value: S) -> (r: Self)
        ensures
            r.wf(),
            r@ == Seq::new(size as nat, |k: int| value),
    {
        let mut data: Vec<S> = Vec::new();
        let mut k: usize = 0;
        while k < size
            invariant
                k <= size,
                data@.len() == k,
                forall|l: int| 0 <= l < k ==> data@[l] == value,
            decreases size - k,
        {
            data.push(value);
            k += 1;
        }
        Self { size, data }
    }

    /// The vector of the given length that holds one everywhere.
    pub fn ones(size: usize) -> (r: Self)
        ensures
            r.wf(),
            r@ == Seq::new(size as nat, |k: int| S::one_spec()),
    {
        Self::filled(size, S::one())
    }

    /// The vector of the given length that holds zero everywhere.
    pub fn zeros(size: usize) -> (r: Self)
        ensures
            r.wf(),
            r@ == Seq::new(size as nat, |k: int| S::zero_spec()),
    {
        Self::filled(size, S::zero())
    }

    /// A vector of fresh samples of the standard distribution of the scalar
    /// type. The length is fixed; the entries are not.
    pub fn random(size: usize) -> (r: Self)
        ensures
            r.wf(),
            r@.len() == size,
    {
        let mut data: Vec<S> = Vec::new();
        let mut k: usize = 0;
        while k < size
            invariant
                k <= size,
                data@.len() == k,
            decreases size - k,
        {
            data.push(S::random());
            k += 1;
        }
        Self { size, data }
    }

    /// The vector of the results of `f` on each entry, in order.
    pub fn apply<F: Fn(S) -> S>(&self, f: F) -> (r: Self)
        requires
            self.wf(),
            forall|k: int| 0 <= k < self@.len() ==> call_requires(f, (#[trigger] self@[k],)),
        ensures
            r.wf(),
            r@.len() == self@.len(),
            forall|k: int| 0 <= k < self@.len() ==> call_ensures(f, (self@[k],), #[trigger] r@[k]),
    {
        let mut data: Vec<S> = Vec::new();
        let mut k: usize = 0;
        while k < self.size
            invariant
                self.wf(),
                k <= self.size,
                data@.len() == k,
                forall|l: int| 0 <= l < self@.len() ==> call_requires(f, (#[trigger] self@[l],)),
                forall|l: int| 0 <= l < k ==> call_ensures(f, (self@[l],), #[trigger] data@[l]),
            decreases self.size - k,
        {
            assert(self@[k as int] == self.data@[k as int]);
            data.push(f(self.data[k]));
            k += 1;
        }
        Self::new(data)
    }

    /// Adds `other` to the vector, entry by entry.
    pub fn add_assign(&mut self, other: &Vector<S>)
        requires
            old(self).wf(),
            other.wf(),
            old(self).size == other.size,
        ensures
            final(self).wf(),
            final(self)@ == plus_seq(old(self)@, other@),
    {
        let mut k: usize = 0;
        while k < self.size
            invariant
                self.wf(),
                other.wf(),
                self.size == other.size,
                self.size == old(self).size,
                old(self)@.len() == self.size,
                k <= self.size,
                forall|l: int| 0 <= l < k ==> #[trigger] self@[l] == old(self)@[l].plus_spec(other@[l]),
                forall|l: int| k <= l < self.size ==> #[trigger] self@[l] == old(self)@[l],
            decreases self.size - k,
        {
            let ghost before = self@;
            let sum = self.data[k].plus(other.data[k]);
            self.data[k] = sum;
            assert(self@ == before.update(k as int, sum));
            k += 1;
        }
        assert(self@ =~= plus_seq(old(self)@, other@));
    }
}

impl<S: Scalar> Clone for Vector<S> {
    fn clone(&self) -> (r: Self)
        ensures
            r.size == self.size,
            r@ == self@,
    {
        let mut data: Vec<S> = Vec::new();
        let mut k: usize = 0;
        while k < self.data.len()
            invariant
                k <= self.data@.len(),
                data@.len() == k,
                forall|l: int| 0 <= l < k ==> data@[l] == self@[l],
            decreases self.data@.len() - k,
        {
            data.push(self.data[k]);
            k += 1;
        }
        Self { size: self.size, data }
    }
}

} // verus!
