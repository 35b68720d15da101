//! A mapping from identifier text to values, held as entries in insertion
//! order with unique keys; inserting under a held key replaces its value.

use vstd::prelude::*;

use crate::text::str_eq;

verus! {

pub struct StringMap<V> {
    entries: Vec<(String, V)>,
}

impl<V> StringMap<V> {
    /// The key texts, in insertion order.
    pub closed spec fn keys(self) -> Seq<Seq<char>> {
        self.entries@.map_values(|e: (String, V)| e.0@)
    }

    /// The values, in the same order as the keys.
    pub closed spec fn values(self) -> Seq<V> {
        self.entries@.map_values(|e: (String, V)| e.1)
    }

    /// Well-formed: the held keys are distinct.
    pub open spec fn wf(self) -> bool {
        forall|i: int, j: int|
            0 <= i < j < self.keys().len() ==> self.keys()[i] != self.keys()[j]
    }

    pub open spec fn contains_key(self, k: Seq<char>) -> bool {
        self.keys().contains(k)
    }

    /// The position of a held key.
    pub open spec fn key_index(self, k: Seq<char>) -> int
        recommends
            self.contains_key(k),
    {
        choose|i: int| 0 <= i < self.keys().len() && self.keys()[i] == k
    }

    /// The value under a key.
    pub open spec fn spec_get(self, k: Seq<char>) -> Option<V> {
        if self.contains_key(k) {
            Some(self.values()[self.key_index(k)])
        } else {
            None
        }
    }


    pub fn new() -> (r: StringMap<V>)
        ensures
            r.wf(),
            r.keys() == Seq::<Seq<char>>::empty(),
            r.values() == Seq::<V>::empty(),
            forall|k: Seq<char>| r.spec_get(k) is None,
    {
        let r = StringMap { entries: Vec::new() };
        proof {
            assert(r.keys() =~= Seq::<Seq<char>>::empty());
            assert(r.values() =~= Seq::<V>::empty());
            assert(forall|k: Seq<char>| !r.contains_key(k));
        }
        r
    }

    /// The entry count; also states the held keys' distinctness, which every
    /// reading of the map may lean on.
    pub fn len(&self) -> (r: usize)
        requires
            self.wf(),
        ensures
            r == self.keys().len(),
            self.values().len() == self.keys().len(),
            forall|i: int|
                0 <= i < self.keys().len() ==> self.spec_get(#[trigger] self.keys()[i]) == Some(
                    self.values()[i],
                ),
    {
        proof {
            assert forall|i: int|
                0 <= i < self.keys().len() implies self.spec_get(#[trigger] self.keys()[i]) == Some(
                self.values()[i],
            ) by {
                let k = self.keys()[i];
                assert(self.contains_key(k));
                let j = self.key_index(k);
                assert(0 <= j < self.keys().len() && self.keys()[j] == k);
                assert(j == i);
            }
        }
        self.entries.len()
    }

    /// The position of a key's entry, scanning the held keys.
    fn find_index(&self, k: &str) -> (r: Option<usize>)
        requires
            self.wf(),
        ensures
            match r {
                Some(i) => self.contains_key(k@) && i as int == self.key_index(k@)
                    && self.keys()[i as int] == k@,
                None => !self.contains_key(k@),
            },
    {
        let n = self.entries.len();
        let mut i: usize = 0;
        while i < n
            invariant
                self.wf(),
                n == self.entries@.len(),
                0 <= i <= n,
                self.keys().len() == n,
                forall|j: int| 0 <= j < i ==> self.keys()[j] != k@,
            decreases n - i,
        {
            if str_eq(self.entries[i].0.as_str(), k) {
                proof {
                    assert(self.keys()[i as int] == k@);
                    assert(self.contains_key(k@));
                    let j = self.key_index(k@);
                    assert(0 <= j < self.keys().len() && self.keys()[j] == k@);
                    assert(j == i);
                }
                return Some(i);
            }
            proof {
                assert(self.keys()[i as int] == self.entries@[i as int].0@);
            }
            i += 1;
        }
        proof {
            if self.contains_key(k@) {
                let j = self.key_index(k@);
                assert(0 <= j < self.keys().len() && self.keys()[j] == k@);
            }
        }
        None
    }

    pub fn get(&self, k: &str) -> (r: Option<&V>)
        requires
            self.wf(),
        ensures
            match r {
                Some(v) => self.spec_get(k@) == Some(*v),
                None => self.spec_get(k@) is None,
            },
    {
        match self.find_index(k) {
            Some(i) => {
                proof {
                    assert(self.values()[i as int] == self.entries@[i as int].1);
                }
                Some(&self.entries[i].1)
            },
            None => None,
        }
    }

    pub fn contains(&self, k: &str) -> (r: bool)
        requires
            self.wf(),
        ensures
            r == self.contains_key(k@),
    {
        match self.find_index(k) {
            Some(_) => true,
            None => false,
        }
    }

    /// Inserts a value under a key; a held key keeps its place and its value
    /// is replaced — the last insertion wins.
    pub fn insert(&mut self, k: String, v: V)
        requires
            old(self).wf(),
        ensures
            final(self).wf(),
            ({
                if old(self).contains_key(k@) {
                    final(self).keys() == old(self).keys() && final(self).values() == old(
                        self,
                    ).values().update(old(self).key_index(k@), v)
                } else {
                    final(self).keys() == old(self).keys().push(k@) && final(self).values() == old(
                        self,
                    ).values().push(v)
                }
            }),
            final(self).spec_get(k@) == Some(v),
            forall|k2: Seq<char>|
                k2 != k@ ==> final(self).spec_get(k2) == old(self).spec_get(k2),
    {
        let ghost prev = *self;
        match self.find_index(k.as_str()) {
            Some(i) => {
                let _ = self.entries.remove(i);
                self.entries.insert(i, (k, v));
                proof {
                    assert(self.entries@ =~= prev.entries@.update(i as int, (k, v)));
                    assert(self.keys() =~= prev.keys()) by {
                        assert(forall|j: int|
                            0 <= j < prev.entries@.len() && j != i ==> self.entries@[j]
                                == #[trigger] prev.entries@[j]);
                        assert(self.keys()[i as int] == k@ && prev.keys()[i as int] == k@);
                    }
                    assert(self.values() =~= prev.values().update(i as int, v));
                }
            },
            None => {
                self.entries.push((k, v));
                proof {
                    assert(self.keys() =~= prev.keys().push(k@)) by {
                        assert(forall|j: int|
                            0 <= j < prev.entries@.len() ==> self.entries@[j] == #[trigger] prev.entries@[j]);
                    }
                    assert(self.values() =~= prev.values().push(v));
                }
            },
        }
        proof {
            self.lemma_insert_post(prev, k@, v);
        }
    }

    proof fn lemma_insert_post(&self, prev: StringMap<V>, k: Seq<char>, v: V)
        requires
            prev.wf(),
            if prev.contains_key(k) {
                self.keys() == prev.keys() && self.values() == prev.values().update(
                    prev.key_index(k),
                    v,
                )
            } else {
                self.keys() == prev.keys().push(k) && self.values() == prev.values().push(v)
            },
            prev.values().len() == prev.keys().len(),
        ensures
            self.wf(),
            self.spec_get(k) == Some(v),
            forall|k2: Seq<char>| k2 != k ==> self.spec_get(k2) == prev.spec_get(k2),
    {
        if prev.contains_key(k) {
            let i = prev.key_index(k);
            assert(0 <= i < prev.keys().len() && prev.keys()[i] == k);
            assert(self.wf());
            assert(self.contains_key(k));
            let j = self.key_index(k);
            assert(0 <= j < self.keys().len() && self.keys()[j] == k);
            assert(j == i);
            assert forall|k2: Seq<char>| k2 != k implies self.spec_get(k2) == prev.spec_get(
                k2,
            ) by {
                if prev.contains_key(k2) {
                    let i2 = prev.key_index(k2);
                    assert(0 <= i2 < prev.keys().len() && prev.keys()[i2] == k2);
                    assert(self.contains_key(k2));
                    let j2 = self.key_index(k2);
                    assert(0 <= j2 < self.keys().len() && self.keys()[j2] == k2);
                    assert(j2 == i2);
                    assert(i2 != i);
                } else {
                    if self.contains_key(k2) {
                        let j2 = self.key_index(k2);
                        assert(prev.keys()[j2] == k2);
                        assert(prev.contains_key(k2));
                    }
                }
            }
        } else {
            let n = prev.keys().len();
            assert(forall|j: int| 0 <= j < n ==> prev.keys()[j] != k) by {
                if exists|j: int| 0 <= j < n && prev.keys()[j] == k {
                    let j = choose|j: int| 0 <= j < n && prev.keys()[j] == k;
                    assert(prev.keys().contains(k));
                }
            }
            assert(self.wf()) by {
                assert(forall|j: int| 0 <= j < n ==> self.keys()[j] == #[trigger] prev.keys()[j]);
                assert(self.keys()[n as int] == k);
            }
            assert(self.keys()[n as int] == k);
            assert(self.contains_key(k));
            let j = self.key_index(k);
            assert(0 <= j < self.keys().len() && self.keys()[j] == k);
            assert(j == n) by {
                if j < n {
                    assert(prev.keys()[j] == self.keys()[j]);
                    assert(prev.keys().contains(k));
                }
            }
            assert(self.spec_get(k) == Some(v));
            assert forall|k2: Seq<char>| k2 != k implies self.spec_get(k2) == prev.spec_get(
                k2,
            ) by {
                if prev.contains_key(k2) {
                    let i2 = prev.key_index(k2);
                    assert(0 <= i2 < n && prev.keys()[i2] == k2);
                    assert(self.keys()[i2] == k2);
                    assert(self.contains_key(k2));
                    let j2 = self.key_index(k2);
                    assert(0 <= j2 < self.keys().len() && self.keys()[j2] == k2);
                    assert(j2 != n);
                    assert(j2 == i2);
                } else {
                    if self.contains_key(k2) {
                        let j2 = self.key_index(k2);
                        assert(0 <= j2 < self.keys().len() && self.keys()[j2] == k2);
                        assert(j2 != n);
                        assert(prev.keys()[j2] == k2);
                        assert(prev.contains_key(k2));
                    }
                }
            }
        }
    }

    /// The key at a position.
    pub fn key_at(&self, i: usize) -> (r: &String)
        requires
            i < self.keys().len(),
        ensures
            r@ == self.keys()[i as int],
    {
        proof {
            assert(self.keys()[i as int] == self.entries@[i as int].0@);
        }
        &self.entries[i].0
    }

    /// The value at a position.
    pub fn value_at(&self, i: usize) -> (r: &V)
        requires
            i < self.keys().len(),
        ensures
            *r == self.values()[i as int],
    {
        proof {
            assert(self.values()[i as int] == self.entries@[i as int].1);
        }
        &self.entries[i].1
    }

    /// The position of a key's entry.
    pub fn index_of(&self, k: &str) -> (r: Option<usize>)
        requires
            self.wf(),
        ensures
            match r {
                Some(i) => i < self.keys().len() && self.keys()[i as int] == k@ && self.spec_get(
                    k@,
                ) == Some(self.values()[i as int]) && self.values().len() == self.keys().len(),
                None => !self.contains_key(k@),
            },
    {
        let n = self.len();
        match self.find_index(k) {
            Some(i) => {
                proof {
                    assert(self.spec_get(k@) == Some(self.values()[self.key_index(k@)]));
                }
                Some(i)
            },
            None => None,
        }
    }

    /// Swaps the value at a position, handing the old value out. The key set
    /// is untouched: only that key's value changes.
    pub fn replace_value_at(&mut self, i: usize, v: V) -> (prev_v: V)
        requires
            old(self).wf(),
            i < old(self).keys().len(),
        ensures
            final(self).wf(),
            prev_v == old(self).values()[i as int],
            final(self).keys() == old(self).keys(),
            final(self).values() == old(self).values().update(i as int, v),
            final(self).spec_get(old(self).keys()[i as int]) == Some(v),
            forall|k2: Seq<char>|
                k2 != old(self).keys()[i as int] ==> final(self).spec_get(k2) == old(
                    self,
                ).spec_get(k2),
    {
        let ghost prev = *self;
        let (k, prev_v) = self.entries.remove(i);
        self.entries.insert(i, (k, v));
        proof {
            assert(self.entries@ =~= prev.entries@.update(
                i as int,
                (self.entries@[i as int].0, v),
            ));
            assert(self.entries@[i as int].0@ == prev.entries@[i as int].0@);
            assert(self.keys() =~= prev.keys());
            assert(self.values() =~= prev.values().update(i as int, v));
            let k0 = prev.keys()[i as int];
            assert(self.contains_key(k0));
            let j0 = self.key_index(k0);
            assert(0 <= j0 < self.keys().len() && self.keys()[j0] == k0);
            assert(j0 == i);
            assert forall|k2: Seq<char>| k2 != k0 implies self.spec_get(k2) == prev.spec_get(
                k2,
            ) by {
                if prev.contains_key(k2) {
                    let j2 = prev.key_index(k2);
                    assert(0 <= j2 < prev.keys().len() && prev.keys()[j2] == k2);
                    assert(self.contains_key(k2));
                    let j3 = self.key_index(k2);
                    assert(0 <= j3 < self.keys().len() && self.keys()[j3] == k2);
                    assert(j3 == j2);
                    assert(j2 != i);
                } else {
                    if self.contains_key(k2) {
                        let j3 = self.key_index(k2);
                        assert(prev.keys()[j3] == k2);
                        assert(prev.contains_key(k2));
                    }
                }
            }
        }
        prev_v
    }

    /// Hands out the values in order, consuming the map.
    pub fn into_values(self) -> (r: Vec<V>)
        ensures
            r@ == self.values(),
    {
        let ghost whole = self;
        let mut entries = self.entries;
        let mut out: Vec<V> = Vec::new();
        let n = entries.len();
        let ghost evs = entries@;
        let mut i: usize = 0;
        while i < n
            invariant
                n == evs.len(),
                whole.values().len() == n,
                0 <= i <= n,
                entries@ == evs.skip(i as int),
                out@.len() == i,
                forall|j: int| 0 <= j < i ==> out@[j] == #[trigger] whole.values()[j],
                forall|j: int| 0 <= j < n ==> whole.values()[j] == #[trigger] evs[j].1,
            decreases n - i,
        {
            let (_, v) = entries.remove(0);
            proof {
                assert(evs.skip(i as int)[0] == evs[i as int]);
                assert(evs.skip(i as int).subrange(1, evs.skip(i as int).len() as int) =~= evs.skip(
                    i as int + 1,
                ));
            }
            out.push(v);
            i += 1;
        }
        proof {
            assert(out@ =~= whole.values());
        }
        out
    }
}

} // verus!
