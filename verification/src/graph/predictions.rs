//! The table of predictions that a forward pass returns.

use crate::linalg::matrix::Matrix;
use crate::linalg::model::MatrixView;
use crate::scalar::Scalar;
use vstd::prelude::*;

verus! {

/// A map from pairs of node indices to matrices. It is held as a list of
/// entries in which no pair occurs twice.
pub struct Predictions<S: Scalar> {
    entries: Vec<((usize, usize), Matrix<S>)>,
}

impl<S: Scalar> Predictions<S> {
    /// Entry `i` is the one for `key`.
    spec fn holds_at(&self, key: (usize, usize), i: int) -> bool {
        0 <= i < self.entries@.len() && self.entries@[i].0 == key
    }

    /// No pair occurs twice.
    spec fn distinct(&self) -> bool {
        forall|i: int, j: int|
            0 <= i < j < self.entries@.len() ==> (#[trigger] self.entries@[i]).0
                != (#[trigger] self.entries@[j]).0
    }
}

impl<S: Scalar> View for Predictions<S> {
    type V = Map<(usize, usize), MatrixView<S>>;

    closed spec fn view(&self) -> Map<(usize, usize), MatrixView<S>> {
        Map::new(
            |key: (usize, usize)| exists|i: int| self.holds_at(key, i),
            |key: (usize, usize)| self.entries@[choose|i: int| self.holds_at(key, i)].1@,
        )
    }
}

impl<S: Scalar> Predictions<S> {
    /// No pair occurs twice, every matrix is well-formed, and there are as
    /// many entries as the map has pairs.
    pub closed spec fn wf(&self) -> bool {
        &&& self.distinct()
        &&& forall|i: int| 0 <= i < self.entries@.len() ==> (#[trigger] self.entries@[i]).1.wf()
        &&& self@.dom().finite()
        &&& self@.dom().len() == self.entries@.len()
    }

    /// The map after entry `i` has been set to, or a new entry has been added
    /// for, `key` and `value`.
    proof fn lemma_inserted(&self, before: Self, key: (usize, usize), value: Matrix<S>, i: int)
        requires
            before.distinct(),
            self.distinct(),
            before.holds_at(key, i) && self.entries@ == before.entries@.update(i, (key, value))
                || i == before.entries@.len() && (forall|j: int| !before.holds_at(key, j))
                && self.entries@ == before.entries@.push((key, value)),
        ensures
            self@ == before@.insert(key, value@),
    {
        let expected = before@.insert(key, value@);
        assert(self.holds_at(key, i));
        assert forall|k: (usize, usize)| self@.dom().contains(k) <==> expected.dom().contains(
            k,
        ) by {
            if expected.dom().contains(k) && k != key {
                let j = choose|j: int| before.holds_at(k, j);
                assert(self.holds_at(k, j));
            }
            if self@.dom().contains(k) && k != key {
                let j = choose|j: int| self.holds_at(k, j);
                assert(before.holds_at(k, j));
            }
        }
        assert forall|k: (usize, usize)| self@.dom().contains(k) implies self@[k]
            == expected[k] by {
            let j = choose|j: int| self.holds_at(k, j);
            if k != key {
                assert(before.holds_at(k, j));
            }
        }
    }

    /// The empty table.
    pub fn new() -> (r: Self)
        ensures
            r.wf(),
            r@ == Map::<(usize, usize), MatrixView<S>>::empty(),
    {
        let r = Self { entries: Vec::new() };
        r
    }

    /// The index of the entry for `key`.
    fn find(&self, key: (usize, usize)) -> (r: Option<usize>)
        ensures
            match r {
                Some(i) => self.holds_at(key, i as int),
                None => forall|i: int| !self.holds_at(key, i),
            },
    {
        let mut i: usize = 0;
        while i < self.entries.len()
            invariant
                i <= self.entries@.len(),
                forall|k: int| 0 <= k < i ==> !self.holds_at(key, k),
            decreases self.entries@.len() - i,
        {
            if self.entries[i].0.0 == key.0 && self.entries[i].0.1 == key.1 {
                return Some(i);
            }
            i += 1;
        }
        None
    }

    /// Sets the matrix for `key`, in place of the one that was there, if any.
    pub fn insert(&mut self, key: (usize, usize), value: Matrix<S>)
        requires
            old(self).wf(),
            value.wf(),
        ensures
            final(self).wf(),
            final(self)@ == old(self)@.insert(key, value@),
    {
        let ghost before = *self;
        match self.find(key) {
            Some(i) => {
                self.entries[i] = (key, value);
                proof {
                    self.lemma_inserted(before, key, value, i as int);
                }
            },
            None => {
                self.entries.push((key, value));
                proof {
                    let n = before.entries@.len() as int;
                    assert forall|a: int, b: int| 0 <= a < b < self.entries@.len() implies (
                    #[trigger] self.entries@[a]).0 != (#[trigger] self.entries@[b]).0 by {
                        if b == n {
                            assert(!before.holds_at(key, a));
                        }
                    }
                    self.lemma_inserted(before, key, value, n);
                }
            },
        }
    }

    /// The matrix for `key`, if there is one.
    pub fn get(&self, key: &(usize, usize)) -> (r: Option<&Matrix<S>>)
        requires
            self.wf(),
        ensures
            match r {
                Some(m) => self@.contains_key(*key) && m@ == self@[*key] && m.wf(),
                None => !self@.contains_key(*key),
            },
    {
        match self.find(*key) {
            Some(i) => {
                Some(&self.entries[i].1)
            },
            None => None,
        }
    }

    /// The number of pairs that have a matrix.
    pub fn len(&self) -> (r: usize)
        requires
            self.wf(),
        ensures
            r == self@.len(),
    {
        self.entries.len()
    }
}

} // verus!
