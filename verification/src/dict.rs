//! Dictionaries: mappings from values to values.

use vstd::prelude::*;
use crate::value::{Value, ValueView};

verus! {

/// A mapping from keys to values, where any value can be a key and keys are
/// told apart by the equality of the language. The entries are kept in the
/// order in which their keys were first inserted, and no key occurs twice.
pub struct Dict {
    entries: Vec<(Value, Value)>,
}

impl Dict {
    /// No two entries have equal keys.
    pub closed spec fn wf(&self) -> bool {
        forall|i: int, j: int|
            0 <= i < j < self.entries@.len() ==> self.entries@[i].0@ != self.entries@[j].0@
    }

    spec fn has_key_at(&self, key: ValueView, i: int) -> bool {
        0 <= i < self.entries@.len() && self.entries@[i].0@ == key
    }

    /// The mapping that the dictionary holds.
    pub closed spec fn view(&self) -> Map<ValueView, ValueView> {
        Map::new(
            |k: ValueView| exists|i: int| self.has_key_at(k, i),
            |k: ValueView| self.entries@[choose|i: int| self.has_key_at(k, i)].1@,
        )
    }

    proof fn lemma_finite(&self)
        requires
            self.wf(),
        ensures
            self@.dom().finite(),
            self@.dom().len() == self.entries@.len(),
    {
        let keys = Seq::new(self.entries@.len(), |i: int| self.entries@[i].0@);
        assert forall|i: int, j: int|
            0 <= i < keys.len() && 0 <= j < keys.len() && i != j implies keys[i] != keys[j] by {
            if i < j {
                assert(self.entries@[i].0@ != self.entries@[j].0@);
            } else {
                assert(self.entries@[j].0@ != self.entries@[i].0@);
            }
        }
        assert(keys.no_duplicates());
        keys.unique_seq_to_set();
        assert(keys.to_set() =~= self@.dom()) by {
            assert forall|k: ValueView| keys.to_set().contains(k) == self@.dom().contains(k) by {
                if keys.to_set().contains(k) {
                    let i = choose|i: int| 0 <= i < keys.len() && keys[i] == k;
                    assert(self.has_key_at(k, i));
                }
                if self@.dom().contains(k) {
                    let i = choose|i: int| self.has_key_at(k, i);
                    assert(keys[i] == k);
                }
            }
        }
    }

    /// A dictionary without entries.
    pub fn new() -> (r: Dict)
        ensures
            r.wf(),
            r@ == Map::<ValueView, ValueView>::empty(),
    {
        let r = Dict { entries: Vec::new() };
        assert(r@ =~= Map::<ValueView, ValueView>::empty());
        r
    }

    /// The number of entries.
    pub fn len(&self) -> (n: usize)
        requires
            self.wf(),
        ensures
            n == self@.dom().len(),
    {
        proof {
            self.lemma_finite();
        }
        self.entries.len()
    }

    fn find(&self, key: &Value) -> (r: Option<usize>)
        requires
            self.wf(),
        ensures
            match r {
                Some(i) => self.has_key_at(key@, i as int),
                None => forall|i: int| !self.has_key_at(key@, i),
            },
    {
        let mut i: usize = 0;
        while i < self.entries.len()
            invariant
                i <= self.entries@.len(),
                forall|j: int| 0 <= j < i ==> self.entries@[j].0@ != key@,
            decreases self.entries@.len() - i,
        {
            if self.entries[i].0.equals(key) {
                return Some(i);
            }
            i += 1;
        }
        None
    }

    proof fn lemma_entry(&self, i: int)
        requires
            self.wf(),
            0 <= i < self.entries@.len(),
        ensures
            self@.contains_key(self.entries@[i].0@),
            self@[self.entries@[i].0@] == self.entries@[i].1@,
    {
        let k = self.entries@[i].0@;
        assert(self.has_key_at(k, i));
        let c = choose|c: int| self.has_key_at(k, c);
        if c < i {
            assert(self.entries@[c].0@ != self.entries@[i].0@);
        } else if i < c {
            assert(self.entries@[i].0@ != self.entries@[c].0@);
        }
    }

    /// A copy of the value stored under `key`, if there is one.
    pub fn get(&self, key: &Value) -> (r: Option<Value>)
        requires
            self.wf(),
        ensures
            match r {
                Some(v) => self@.contains_key(key@) && self@[key@] == v@,
                None => !self@.contains_key(key@),
            },
    {
        match self.find(key) {
            Some(i) => {
                proof {
                    self.lemma_entry(i as int);
                }
                Some(self.entries[i].1.copy())
            },
            None => None,
        }
    }

    /// Stores `value` under `key`, in place of what was stored under an equal
    /// key before.
    pub fn insert(&mut self, key: Value, value: Value)
        requires
            old(self).wf(),
        ensures
            final(self).wf(),
            final(self)@ == old(self)@.insert(key@, value@),
    {
        let ghost before = *self;
        match self.find(&key) {
            Some(i) => {
                let ghost k = key@;
                self.entries[i] = (key, value);
                proof {
                    assert(self.entries@.len() == before.entries@.len());
                    assert forall|j: int|
                        0 <= j < self.entries@.len() implies #[trigger] self.entries@[j].0@
                        == before.entries@[j].0@ by {}
                    assert(self.wf());
                    assert forall|q: ValueView| self@.contains_key(q) == before@.insert(
                        key@,
                        value@,
                    ).contains_key(q) by {
                        if self@.contains_key(q) {
                            let c = choose|c: int| self.has_key_at(q, c);
                            assert(before.has_key_at(q, c));
                        }
                        if before@.contains_key(q) {
                            let c = choose|c: int| before.has_key_at(q, c);
                            assert(self.has_key_at(q, c));
                        }
                        if q == k {
                            assert(self.has_key_at(q, i as int));
                        }
                    }
                    assert forall|q: ValueView| self@.contains_key(q) implies self@[q]
                        == before@.insert(key@, value@)[q] by {
                        let c = choose|c: int| self.has_key_at(q, c);
                        self.lemma_entry(c);
                        if c != i {
                            before.lemma_entry(c);
                        }
                    }
                    assert(self@ =~= before@.insert(key@, value@));
                }
            },
            None => {
                let ghost k = key@;
                let ghost v = value@;
                self.entries.push((key, value));
                proof {
                    let n = before.entries@.len() as int;
                    assert forall|i: int, j: int|
                        0 <= i < j < self.entries@.len() implies self.entries@[i].0@
                        != self.entries@[j].0@ by {
                        if j == n {
                            assert(!before.has_key_at(k, i));
                        } else {
                            assert(before.entries@[i].0@ != before.entries@[j].0@);
                        }
                    }
                    assert(self.wf());
                    assert forall|q: ValueView| self@.contains_key(q) == before@.insert(
                        k,
                        v,
                    ).contains_key(q) by {
                        if self@.contains_key(q) {
                            let c = choose|c: int| self.has_key_at(q, c);
                            if c < n {
                                assert(before.has_key_at(q, c));
                            }
                        }
                        if before@.contains_key(q) {
                            let c = choose|c: int| before.has_key_at(q, c);
                            assert(self.has_key_at(q, c));
                        }
                        if q == k {
                            assert(self.has_key_at(q, n));
                        }
                    }
                    assert forall|q: ValueView| self@.contains_key(q) implies self@[q]
                        == before@.insert(k, v)[q] by {
                        let c = choose|c: int| self.has_key_at(q, c);
                        self.lemma_entry(c);
                        if c < n {
                            before.lemma_entry(c);
                        }
                    }
                    assert(self@ =~= before@.insert(k, v));
                }
            },
        }
    }
}

} // verus!
