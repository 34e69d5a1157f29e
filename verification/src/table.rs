//! A small map from names to values, kept as a list of entries with distinct
//! names. Both the scope frames and the function tables are built on it.

use vstd::prelude::*;

verus! {

/// A finite map keyed by strings.
pub struct Table<V> {
    entries: Vec<(String, V)>,
}

impl<V: View> Table<V> {
    /// No name occurs in two entries.
    pub closed spec fn wf(&self) -> bool {
        forall|i: int, j: int|
            0 <= i < self.entries@.len() && 0 <= j < self.entries@.len()
                && #[trigger] self.entries@[i].0@ == #[trigger] self.entries@[j].0@ ==> i == j
    }

    /// Whether some entry carries the name `key`.
    spec fn has(&self, key: Seq<char>) -> bool {
        exists|i: int| 0 <= i < self.entries@.len() && #[trigger] self.entries@[i].0@ == key
    }

    /// The position of the entry named `key`.
    spec fn pos(&self, key: Seq<char>) -> int {
        choose|i: int| 0 <= i < self.entries@.len() && #[trigger] self.entries@[i].0@ == key
    }

    /// The table as a mathematical map from names to values.
    pub closed spec fn view(&self) -> Map<Seq<char>, V::V> {
        Map::new(|k: Seq<char>| self.has(k), |k: Seq<char>| self.entries@[self.pos(k)].1@)
    }

    proof fn lemma_entry(&self, i: int)
        requires
            self.wf(),
            0 <= i < self.entries@.len(),
        ensures
            self.has(self.entries@[i].0@),
            self.pos(self.entries@[i].0@) == i,
            self@.contains_key(self.entries@[i].0@),
            self@[self.entries@[i].0@] == self.entries@[i].1@,
    {
        let k = self.entries@[i].0@;
        assert(self.has(k));
        let p = self.pos(k);
        assert(0 <= p < self.entries@.len() && self.entries@[p].0@ == k);
    }

    /// An empty table.
    pub fn new() -> (t: Self)
        ensures
            t.wf(),
            t@ == Map::<Seq<char>, V::V>::empty(),
    {
        let t = Table { entries: Vec::new() };
        assert(t@ =~= Map::<Seq<char>, V::V>::empty());
        t
    }

    /// The position of `key` among the entries, if it is present.
    fn find(&self, key: &String) -> (r: Option<usize>)
        requires
            self.wf(),
        ensures
            r is Some <==> self@.contains_key(key@),
            r matches Some(i) ==> i < self.entries@.len() && self.entries@[i as int].0@ == key@
                && self@[key@] == self.entries@[i as int].1@,
    {
        let mut i: usize = 0;
        while i < self.entries.len()
            invariant
                self.wf(),
                i <= self.entries@.len(),
                forall|j: int| 0 <= j < i ==> self.entries@[j].0@ != key@,
            decreases self.entries@.len() - i,
        {
            if self.entries[i].0 == *key {
                proof {
                    self.lemma_entry(i as int);
                }
                return Some(i);
            }
            i += 1;
        }
        assert(!self.has(key@));
        None
    }

    /// Whether the table has an entry for `key`.
    pub fn contains_key(&self, key: &String) -> (r: bool)
        requires
            self.wf(),
        ensures
            r == self@.contains_key(key@),
    {
        self.find(key).is_some()
    }

    /// The value stored under `key`.
    pub fn get(&self, key: &String) -> (r: Option<&V>)
        requires
            self.wf(),
        ensures
            r is Some <==> self@.contains_key(key@),
            r matches Some(v) ==> v@ == self@[key@],
    {
        match self.find(key) {
            Some(i) => Some(&self.entries[i].1),
            None => None,
        }
    }

    /// Stores `value` under `key`, replacing what was there.
    pub fn insert(&mut self, key: String, val: V)
        requires
            old(self).wf(),
        ensures
            final(self).wf(),
            final(self)@ == old(self)@.insert(key@, val@),
    {
        let ghost k = key@;
        let ghost value = val@;

        match self.find(&key) {
            Some(i) => {
                self.entries.set(i, (key, val));
                assert(self.wf()) by {
                    assert forall|a: int, b: int|
                        0 <= a < self.entries@.len() && 0 <= b < self.entries@.len()
                            && #[trigger] self.entries@[a].0@ == #[trigger] self.entries@[b].0@
                        implies a == b by {
                        assert(self.entries@[a].0@ == old(self).entries@[a].0@);
                        assert(self.entries@[b].0@ == old(self).entries@[b].0@);
                    }
                }
                assert(self@ =~= old(self)@.insert(k, value)) by {
                    assert forall|q: Seq<char>| self.has(q) == old(self)@.insert(k, value).contains_key(q) by {
                        if self.has(q) {
                            let p = self.pos(q);
                            assert(old(self).entries@[p].0@ == q);
                            assert(old(self).has(q));
                        }
                        if old(self)@.insert(k, value).contains_key(q) {
                            if q == k {
                                assert(self.entries@[i as int].0@ == q);
                            } else {
                                let p = old(self).pos(q);
                                assert(old(self).has(q));
                                assert(self.entries@[p].0@ == q);
                            }
                        }
                    }
                    assert forall|q: Seq<char>| self.has(q) implies self@[q] == old(self)@.insert(k, value)[q] by {
                        let p = self.pos(q);
                        self.lemma_entry(p);
                        assert(old(self).entries@[p].0@ == q);
                        old(self).lemma_entry(p);
                    }
                }
            },
            None => {
                self.entries.push((key, val));
                let ghost n = old(self).entries@.len() as int;
                assert(self.wf()) by {
                    assert forall|a: int, b: int|
                        0 <= a < self.entries@.len() && 0 <= b < self.entries@.len()
                            && #[trigger] self.entries@[a].0@ == #[trigger] self.entries@[b].0@
                        implies a == b by {
                        if a < n {
                            assert(old(self).entries@[a].0@ == self.entries@[a].0@);
                            assert(old(self).has(self.entries@[a].0@));
                        }
                        if b < n {
                            assert(old(self).entries@[b].0@ == self.entries@[b].0@);
                            assert(old(self).has(self.entries@[b].0@));
                        }
                    }
                }
                assert(self@ =~= old(self)@.insert(k, value)) by {
                    assert forall|q: Seq<char>| self.has(q) == old(self)@.insert(k, value).contains_key(q) by {
                        if self.has(q) {
                            let p = self.pos(q);
                            if p < n {
                                assert(old(self).entries@[p].0@ == q);
                                assert(old(self).has(q));
                            }
                        }
                        if old(self)@.insert(k, value).contains_key(q) {
                            if q == k {
                                assert(self.entries@[n].0@ == q);
                            } else {
                                let p = old(self).pos(q);
                                assert(old(self).has(q));
                                assert(self.entries@[p].0@ == q);
                            }
                        }
                    }
                    assert forall|q: Seq<char>| self.has(q) implies self@[q] == old(self)@.insert(k, value)[q] by {
                        let p = self.pos(q);
                        self.lemma_entry(p);
                        if p < n {
                            assert(old(self).entries@[p].0@ == q);
                            old(self).lemma_entry(p);
                        }
                    }
                }
            },
        }
    }
}

} // verus!
