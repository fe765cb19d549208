//! Maps with text keys.

use crate::text::same;
use vstd::prelude::*;

verus! {

/// A map from text to values, kept as a list in which no key occurs twice.
#[derive(Debug)]
pub struct StrMap<V> {
    pub entries: Vec<(String, V)>,
}

impl<V> View for StrMap<V> {
    type V = Map<Seq<char>, V>;

    open spec fn view(&self) -> Map<Seq<char>, V> {
        Map::new(
            |k: Seq<char>| exists|i: int| 0 <= i < self.entries@.len() && #[trigger] self.entries@[i].0@ == k,
            |k: Seq<char>|
                self.entries@[choose|i: int|
                    0 <= i < self.entries@.len() && #[trigger] self.entries@[i].0@ == k].1,
        )
    }
}

impl<V> StrMap<V> {
    /// No key occurs twice.
    pub open spec fn wf(&self) -> bool {
        forall|i: int, j: int|
            0 <= i < j < self.entries@.len() ==> #[trigger] self.entries@[i].0@
                != #[trigger] self.entries@[j].0@
    }

    /// What an entry says of the map.
    pub proof fn lemma_entry(&self, i: int)
        requires
            self.wf(),
            0 <= i < self.entries@.len(),
        ensures
            self@.dom().contains(self.entries@[i].0@),
            self@[self.entries@[i].0@] == self.entries@[i].1,
    {
        let k = self.entries@[i].0@;
        let j = choose|j: int| 0 <= j < self.entries@.len() && #[trigger] self.entries@[j].0@ == k;
        assert(self.entries@[i].0@ == k);
        assert(i == j);
    }

    /// The map without entries.
    pub fn new() -> (r: Self)
        ensures
            r.wf(),
            r@ == Map::<Seq<char>, V>::empty(),
            r.entries@.len() == 0,
    {
        let r = StrMap { entries: Vec::new() };
        assert(r@ =~= Map::<Seq<char>, V>::empty());
        r
    }

    /// Where `key` stands in the list.
    pub fn find(&self, key: &str) -> (r: Option<usize>)
        requires
            self.wf(),
        ensures
            match r {
                Some(i) => i < self.entries@.len() && self.entries@[i as int].0@ == key@
                    && self@.dom().contains(key@) && self@[key@] == self.entries@[i as int].1,
                None => !self@.dom().contains(key@),
            },
    {
        let mut i: usize = 0;
        while i < self.entries.len()
            invariant
                i <= self.entries@.len(),
                self.wf(),
                forall|j: int| 0 <= j < i ==> #[trigger] self.entries@[j].0@ != key@,
            decreases self.entries@.len() - i,
        {
            if same(self.entries[i].0.as_str(), key) {
                proof {
                    self.lemma_entry(i as int);
                }
                return Some(i);
            }
            i += 1;
        }
        None
    }

    /// The value at `key`.
    pub fn get(&self, key: &str) -> (r: Option<&V>)
        requires
            self.wf(),
        ensures
            match r {
                Some(v) => self@.dom().contains(key@) && self@[key@] == *v,
                None => !self@.dom().contains(key@),
            },
    {
        match self.find(key) {
            Some(i) => Some(&self.entries[i].1),
            None => None,
        }
    }

    /// Takes the value at `key` out of the map.
    pub fn take(&mut self, key: &str) -> (r: Option<V>)
        requires
            old(self).wf(),
        ensures
            final(self).wf(),
            final(self)@ == old(self)@.remove(key@),
            match r {
                Some(v) => old(self)@.dom().contains(key@) && old(self)@[key@] == v,
                None => !old(self)@.dom().contains(key@),
            },
            r is Some ==> final(self).entries@.len() == old(self).entries@.len() - 1,
            r is None ==> final(self).entries@.len() == old(self).entries@.len(),
    {
        let found = self.find(key);
        match found {
            Some(i) => {
                let ghost before = *self;
                let (_k, v) = self.entries.swap_remove(i);
                proof {
                    let n = before.entries@.len();
                    assert forall|a: int| 0 <= a < self.entries@.len() implies #[trigger] self.entries@[a]
                        == before.entries@[if a == i { n - 1 } else { a }] by {}
                    assert(self.wf());
                    assert forall|k: Seq<char>| #[trigger] before@.remove(key@).dom().contains(k) implies
                        self@.dom().contains(k) && self@[k] == before@[k] by {
                        let b = choose|b: int|
                            0 <= b < before.entries@.len() && #[trigger] before.entries@[b].0@ == k;
                        before.lemma_entry(b);
                        let a = if b == n - 1 { i as int } else { b };
                        assert(b != i);
                        assert(self.entries@[a] == before.entries@[b]);
                        self.lemma_entry(a);
                    }
                    assert forall|k: Seq<char>| #[trigger] self@.dom().contains(k) implies before@.remove(
                        key@,
                    ).dom().contains(k) by {
                        let a = choose|a: int|
                            0 <= a < self.entries@.len() && #[trigger] self.entries@[a].0@ == k;
                        let b = if a == i { n - 1 } else { a };
                        assert(before.entries@[b] == self.entries@[a]);
                        before.lemma_entry(b);
                        assert(before.entries@[b].0@ != before.entries@[i as int].0@);
                    }
                    assert(self@ =~= before@.remove(key@));
                }
                Some(v)
            },
            None => {
                assert(self@ =~= self@.remove(key@));
                None
            },
        }
    }

    /// Adds a key that the map does not hold.
    pub fn add_new(&mut self, key: String, value: V)
        requires
            old(self).wf(),
            !old(self)@.dom().contains(key@),
        ensures
            final(self).wf(),
            final(self)@ == old(self)@.insert(key@, value),
            final(self).entries@ == old(self).entries@.push((key, value)),
    {
        let ghost before = *self;
        let ghost k0 = key@;
        assert forall|i: int| 0 <= i < before.entries@.len() implies #[trigger] before.entries@[i].0@
            != k0 by {
            before.lemma_entry(i);
        }
        self.entries.push((key, value));
        proof {
            let n = before.entries@.len() as int;
            assert(self.wf());
            self.lemma_entry(n);
            assert forall|k: Seq<char>| #[trigger] self@.dom().contains(k) implies before@.insert(
                k0,
                value,
            ).dom().contains(k) by {
                let a = choose|a: int|
                    0 <= a < self.entries@.len() && #[trigger] self.entries@[a].0@ == k;
                if a < n {
                    assert(before.entries@[a] == self.entries@[a]);
                    before.lemma_entry(a);
                }
            }
            assert forall|k: Seq<char>| #[trigger] before@.insert(k0, value).dom().contains(k) implies
                self@.dom().contains(k) && self@[k] == before@.insert(k0, value)[k] by {
                if k != k0 {
                    let b = choose|b: int|
                        0 <= b < before.entries@.len() && #[trigger] before.entries@[b].0@ == k;
                    before.lemma_entry(b);
                    assert(self.entries@[b] == before.entries@[b]);
                    self.lemma_entry(b);
                }
            }
            assert(self@ =~= before@.insert(k0, value));
        }
    }

    /// Sets the value at `key`.
    pub fn set(&mut self, key: &str, value: V)
        requires
            old(self).wf(),
        ensures
            final(self).wf(),
            final(self)@ == old(self)@.insert(key@, value),
    {
        let ghost before = *self;
        let _old = self.take(key);
        self.add_new(key.to_owned(), value);
        assert(self@ =~= before@.insert(key@, value));
    }

    /// The number of keys.
    pub fn len(&self) -> (r: usize)
        requires
            self.wf(),
        ensures
            r == self@.dom().len(),
            self@.dom().finite(),
            r == self.entries@.len(),
    {
        proof {
            self.lemma_len();
        }
        self.entries.len()
    }

    /// The map has as many keys as the list has entries.
    pub proof fn lemma_len(&self)
        requires
            self.wf(),
        ensures
            self@.dom().finite(),
            self@.dom().len() == self.entries@.len(),
    {
        let keys = self.entries@.map_values(|e: (String, V)| e.0@);
        assert(keys.no_duplicates()) by {
            assert forall|i: int, j: int|
                0 <= i < keys.len() && 0 <= j < keys.len() && i != j implies keys[i] != keys[j] by {
                assert(keys[i] == self.entries@[i].0@);
                assert(keys[j] == self.entries@[j].0@);
            }
        }
        keys.unique_seq_to_set();
        assert(self@.dom() =~= keys.to_set()) by {
            assert forall|k: Seq<char>| #[trigger] self@.dom().contains(k) implies keys.to_set().contains(
                k,
            ) by {
                let i = choose|i: int|
                    0 <= i < self.entries@.len() && #[trigger] self.entries@[i].0@ == k;
                assert(keys[i] == k);
            }
            assert forall|k: Seq<char>| #[trigger] keys.to_set().contains(k) implies self@.dom().contains(
                k,
            ) by {
                let i = choose|i: int| 0 <= i < keys.len() && keys[i] == k;
                assert(self.entries@[i].0@ == k);
            }
        }
    }
}

} // verus!
