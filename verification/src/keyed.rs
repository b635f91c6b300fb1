//! A small map from text keys to values, kept as a vector of distinct keys.
use vstd::prelude::*;

use crate::text::str_eq;

verus! {

/// Values stored under text keys; each key occurs at most once.
#[derive(Debug)]
pub struct KeyedStore<V> {
    entries: Vec<(String, V)>,
}

impl<V> KeyedStore<V> {
    /// The store as a map from key text to value.
    pub closed spec fn view_map(&self) -> Map<Seq<char>, V> {
        Map::new(
            |k: Seq<char>| exists|i: int| 0 <= i < self.entries@.len() && self.entries@[i].0@ == k,
            |k: Seq<char>|
                {
                    let i = choose|i: int|
                        0 <= i < self.entries@.len() && self.entries@[i].0@ == k;
                    self.entries@[i].1
                },
        )
    }

    /// No key occurs twice.
    pub closed spec fn wf(&self) -> bool {
        forall|i: int, j: int|
            0 <= i < j < self.entries@.len() ==> self.entries@[i].0@ != self.entries@[j].0@
    }

    /// An empty store.
    pub fn new() -> (s: Self)
        ensures
            s.wf(),
            s.view_map() == Map::<Seq<char>, V>::empty(),
    {
        let s = KeyedStore { entries: Vec::new() };
        assert(s.view_map() =~= Map::<Seq<char>, V>::empty());
        s
    }

    fn position(&self, key: &str) -> (r: Option<usize>)
        ensures
            match r {
                Some(i) => i < self.entries@.len() && self.entries@[i as int].0@ == key@,
                None => forall|i: int|
                    0 <= i < self.entries@.len() ==> self.entries@[i].0@ != key@,
            },
    {
        let mut i: usize = 0;
        while i < self.entries.len()
            invariant
                i <= self.entries@.len(),
                forall|j: int| 0 <= j < i ==> self.entries@[j].0@ != key@,
            decreases self.entries.len() - i,
        {
            if str_eq(self.entries[i].0.as_str(), key) {
                return Some(i);
            }
            i = i + 1;
        }
        None
    }

    proof fn lemma_lookup(&self, i: int)
        requires
            self.wf(),
            0 <= i < self.entries@.len(),
        ensures
            self.view_map().contains_key(self.entries@[i].0@),
            self.view_map()[self.entries@[i].0@] == self.entries@[i].1,
    {
        let k = self.entries@[i].0@;
        assert(self.view_map().dom().contains(k));
        let j = choose|j: int| 0 <= j < self.entries@.len() && self.entries@[j].0@ == k;
        if j != i {
            if j < i {
                assert(self.entries@[j].0@ != self.entries@[i].0@);
            } else {
                assert(self.entries@[i].0@ != self.entries@[j].0@);
            }
        }
    }

    /// The value stored under `key`.
    pub fn get(&self, key: &str) -> (r: Option<&V>)
        requires
            self.wf(),
        ensures
            match r {
                Some(v) => self.view_map().contains_key(key@) && self.view_map()[key@] == *v,
                None => !self.view_map().contains_key(key@),
            },
    {
        match self.position(key) {
            None => None,
            Some(i) => {
                proof {
                    self.lemma_lookup(i as int);
                }
                Some(&self.entries[i].1)
            },
        }
    }

    /// Stores `value` under `key`, replacing any earlier value.
    pub fn insert(&mut self, key: String, value: V)
        requires
            old(self).wf(),
        ensures
            final(self).wf(),
            final(self).view_map() == old(self).view_map().insert(key@, value),
    {
        let ghost old_map = self.view_map();
        let ghost k = key@;
        let ghost val = value;
        match self.position(key.as_str()) {
            Some(i) => {
                let ghost old_entries = self.entries@;
                self.entries.set(i, (key, value));
                proof {
                    assert(self.wf()) by {
                        assert forall|a: int, b: int|
                            0 <= a < b < self.entries@.len() implies self.entries@[a].0@
                            != self.entries@[b].0@ by {
                            if a == i {
                                assert(old_entries[a].0@ == k);
                            } else if b == i {
                                assert(old_entries[b].0@ == k);
                            }
                        }
                    }
                    assert forall|kk: Seq<char>|
                        #[trigger] self.view_map().contains_key(kk) == old_map.insert(
                            k,
                            val,
                        ).contains_key(kk) by {
                        if old_map.contains_key(kk) {
                            let j = choose|j: int|
                                0 <= j < old_entries.len() && old_entries[j].0@ == kk;
                            if j == i {
                                assert(self.entries@[j].0@ == kk);
                            } else {
                                assert(self.entries@[j] == old_entries[j]);
                            }
                        }
                        if self.view_map().contains_key(kk) {
                            let j = choose|j: int|
                                0 <= j < self.entries@.len() && self.entries@[j].0@ == kk;
                            if j != i {
                                assert(old_entries[j] == self.entries@[j]);
                                assert(old_map.contains_key(kk));
                            }
                        }
                    }
                    assert forall|kk: Seq<char>|
                        self.view_map().contains_key(kk) implies #[trigger] self.view_map()[kk]
                        == old_map.insert(k, val)[kk] by {
                        let j = choose|j: int|
                            0 <= j < self.entries@.len() && self.entries@[j].0@ == kk;
                        self.lemma_lookup(j);
                        if j != i {
                            assert(old_entries[j] == self.entries@[j]);
                            old(self).lemma_lookup(j);
                        }
                    }
                    assert(self.view_map() =~= old_map.insert(k, val));
                }
            },
            None => {
                let ghost old_entries = self.entries@;
                self.entries.push((key, value));
                proof {
                    let n = old_entries.len() as int;
                    assert(self.wf()) by {
                        assert forall|a: int, b: int|
                            0 <= a < b < self.entries@.len() implies self.entries@[a].0@
                            != self.entries@[b].0@ by {
                            if b == n {
                                assert(old_entries[a].0@ != k);
                            } else {
                                assert(self.entries@[a] == old_entries[a]);
                                assert(self.entries@[b] == old_entries[b]);
                            }
                        }
                    }
                    assert forall|kk: Seq<char>|
                        #[trigger] self.view_map().contains_key(kk) == old_map.insert(
                            k,
                            val,
                        ).contains_key(kk) by {
                        if old_map.contains_key(kk) {
                            let j = choose|j: int|
                                0 <= j < old_entries.len() && old_entries[j].0@ == kk;
                            assert(self.entries@[j] == old_entries[j]);
                        }
                        if kk == k {
                            assert(self.entries@[n].0@ == kk);
                        }
                        if self.view_map().contains_key(kk) {
                            let j = choose|j: int|
                                0 <= j < self.entries@.len() && self.entries@[j].0@ == kk;
                            if j < n {
                                assert(old_entries[j] == self.entries@[j]);
                                assert(old_map.contains_key(kk));
                            }
                        }
                    }
                    assert forall|kk: Seq<char>|
                        self.view_map().contains_key(kk) implies #[trigger] self.view_map()[kk]
                        == old_map.insert(k, val)[kk] by {
                        let j = choose|j: int|
                            0 <= j < self.entries@.len() && self.entries@[j].0@ == kk;
                        self.lemma_lookup(j);
                        if j < n {
                            assert(old_entries[j] == self.entries@[j]);
                            old(self).lemma_lookup(j);
                        }
                    }
                    assert(self.view_map() =~= old_map.insert(k, val));
                }
            },
        }
    }

    /// Removes the value stored under `key`, if any.
    pub fn remove(&mut self, key: &str)
        requires
            old(self).wf(),
        ensures
            final(self).wf(),
            final(self).view_map() == old(self).view_map().remove(key@),
    {
        let ghost old_map = self.view_map();
        let ghost k = key@;
        match self.position(key) {
            None => {
                assert(!old_map.contains_key(k));
                assert(old_map.remove(k) =~= old_map);
            },
            Some(i) => {
                let ghost old_entries = self.entries@;
                let _ = self.entries.remove(i);
                proof {
                    assert(self.entries@ =~= old_entries.remove(i as int));
                    assert(self.wf()) by {
                        assert forall|a: int, b: int|
                            0 <= a < b < self.entries@.len() implies self.entries@[a].0@
                            != self.entries@[b].0@ by {
                            let a0 = if a < i {
                                a
                            } else {
                                a + 1
                            };
                            let b0 = if b < i {
                                b
                            } else {
                                b + 1
                            };
                            assert(self.entries@[a] == old_entries[a0]);
                            assert(self.entries@[b] == old_entries[b0]);
                        }
                    }
                    assert forall|kk: Seq<char>|
                        #[trigger] self.view_map().contains_key(kk) == old_map.remove(
                            k,
                        ).contains_key(kk) by {
                        if self.view_map().contains_key(kk) {
                            let j = choose|j: int|
                                0 <= j < self.entries@.len() && self.entries@[j].0@ == kk;
                            let j0 = if j < i {
                                j
                            } else {
                                j + 1
                            };
                            assert(self.entries@[j] == old_entries[j0]);
                            assert(old_entries[j0].0@ != old_entries[i as int].0@);
                            assert(old_map.contains_key(kk));
                        }
                        if old_map.remove(k).contains_key(kk) {
                            let j0 = choose|j: int|
                                0 <= j < old_entries.len() && old_entries[j].0@ == kk;
                            assert(j0 != i);
                            let j = if j0 < i {
                                j0
                            } else {
                                j0 - 1
                            };
                            assert(self.entries@[j] == old_entries[j0]);
                        }
                    }
                    assert forall|kk: Seq<char>|
                        self.view_map().contains_key(kk) implies #[trigger] self.view_map()[kk]
                        == old_map.remove(k)[kk] by {
                        let j = choose|j: int|
                            0 <= j < self.entries@.len() && self.entries@[j].0@ == kk;
                        self.lemma_lookup(j);
                        let j0 = if j < i {
                            j
                        } else {
                            j + 1
                        };
                        assert(self.entries@[j] == old_entries[j0]);
                        old(self).lemma_lookup(j0);
                    }
                    assert(self.view_map() =~= old_map.remove(k));
                }
            },
        }
    }
}

} // verus!
