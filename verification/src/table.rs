//! A table from text keys to values, with at most one value per key.
use vstd::prelude::*;
use crate::text;

verus! {

broadcast use {vstd::seq::group_seq_axioms, vstd::map::group_map_axioms, vstd::set::group_set_axioms};

/// The table; its view is a map from the keys' characters.
pub struct TextTable<T> {
    entries: Vec<(String, T)>,
}

impl<T> TextTable<T> {
    pub closed spec fn keys(self) -> Seq<Seq<char>> {
        self.entries@.map_values(|e: (String, T)| e.0@)
    }

    /// No key occurs twice.
    pub closed spec fn wf(self) -> bool {
        self.keys().no_duplicates()
    }

    spec fn position(self, key: Seq<char>) -> int {
        choose|i: int| 0 <= i < self.entries@.len() && (#[trigger] self.entries@[i]).0@ == key
    }

    /// How many keys have a value.
    pub closed spec fn count(self) -> nat {
        self.entries@.len()
    }

    /// The key at a position, for walking the table.
    pub closed spec fn key_at(self, i: int) -> Seq<char> {
        self.entries@[i].0@
    }

    /// The value at a position.
    pub closed spec fn value_at(self, i: int) -> T {
        self.entries@[i].1
    }
}

impl<T> View for TextTable<T> {
    type V = Map<Seq<char>, T>;

    closed spec fn view(&self) -> Map<Seq<char>, T> {
        Map::new(
            |key: Seq<char>|
                exists|i: int|
                    0 <= i < self.entries@.len() && (#[trigger] self.entries@[i]).0@ == key,
            |key: Seq<char>| self.entries@[self.position(key)].1,
        )
    }
}

impl<T> TextTable<T> {
    proof fn view_facts(self)
        requires
            self.wf(),
        ensures
            self@.dom().finite(),
            self@.len() == self.count(),
            forall|i: int|
                0 <= i < self.entries@.len() ==> self@.contains_key(
                    (#[trigger] self.entries@[i]).0@,
                ) && self@[self.entries@[i].0@] == self.entries@[i].1,
            forall|key: Seq<char>| #[trigger] self@.contains_key(key) ==> exists|i: int|
                0 <= i < self.entries@.len() && (#[trigger] self.entries@[i]).0@ == key,
    {
        let keys = self.keys();
        keys.unique_seq_to_set();
        assert(self@.dom() =~= keys.to_set()) by {
            assert forall|key: Seq<char>| keys.to_set().contains(key) implies self@.dom().contains(
                key,
            ) by {
                let i = choose|i: int| 0 <= i < keys.len() && keys[i] == key;
                assert(self.entries@[i].0@ == key);
            }
            assert forall|key: Seq<char>| self@.dom().contains(key) implies keys.to_set().contains(
                key,
            ) by {
                let i = choose|i: int|
                    0 <= i < self.entries@.len() && (#[trigger] self.entries@[i]).0@ == key;
                assert(keys[i] == key);
            }
        }
        assert forall|i: int| 0 <= i < self.entries@.len() implies self@.contains_key(
            (#[trigger] self.entries@[i]).0@,
        ) && self@[self.entries@[i].0@] == self.entries@[i].1 by {
            let key = self.entries@[i].0@;
            let j = self.position(key);
            assert(0 <= j < self.entries@.len() && self.entries@[j].0@ == key);
            assert(keys[i] == keys[j]);
            assert(i == j);
        }
    }

    /// Walking the positions meets every key of the map exactly once.
    pub proof fn positions_cover_the_map(self)
        requires
            self.wf(),
        ensures
            self@.dom().finite(),
            self@.len() == self.count(),
            forall|i: int|
                0 <= i < self.count() ==> self@.contains_key(#[trigger] self.key_at(i))
                    && self@[self.key_at(i)] == self.value_at(i),
            forall|key: Seq<char>| #[trigger]
                self@.contains_key(key) ==> exists|i: int|
                    0 <= i < self.count() && #[trigger] self.key_at(i) == key,
            forall|i: int, j: int|
                #![trigger self.key_at(i), self.key_at(j)]
                0 <= i < self.count() && 0 <= j < self.count() && self.key_at(i) == self.key_at(j)
                    ==> i == j,
    {
        self.view_facts();
        assert forall|i: int| 0 <= i < self.count() implies self@.contains_key(
            #[trigger] self.key_at(i),
        ) && self@[self.key_at(i)] == self.value_at(i) by {
            assert(self@.contains_key(self.entries@[i].0@));
        }
        assert forall|key: Seq<char>| #[trigger] self@.contains_key(key) implies exists|i: int|
            0 <= i < self.count() && #[trigger] self.key_at(i) == key by {
            let i = choose|i: int|
                0 <= i < self.entries@.len() && (#[trigger] self.entries@[i]).0@ == key;
            assert(self.key_at(i) == key);
        }
        assert forall|i: int, j: int|
            #![trigger self.key_at(i), self.key_at(j)]
            0 <= i < self.count() && 0 <= j < self.count() && self.key_at(i) == self.key_at(
                j,
            ) implies i == j by {
            assert(self.keys()[i] == self.keys()[j]);
        }
    }

    pub fn new() -> (r: Self)
        ensures
            r.wf(),
            r@ == Map::<Seq<char>, T>::empty(),
            r.count() == 0,
    {
        let r = TextTable { entries: Vec::new() };
        assert(r@ =~= Map::<Seq<char>, T>::empty());
        r
    }

    /// How many keys have an entry.
    pub fn len(&self) -> (r: usize)
        requires
            self.wf(),
        ensures
            r == self.count(),
            r == self@.len(),
    {
        proof {
            self.view_facts();
        }
        self.entries.len()
    }

    fn find(&self, key: &str) -> (r: Option<usize>)
        requires
            self.wf(),
        ensures
            match r {
                Some(i) => i < self.entries@.len() && self.entries@[i as int].0@ == key@
                    && self@.contains_key(key@) && self@[key@] == self.entries@[i as int].1,
                None => !self@.contains_key(key@),
            },
    {
        proof {
            self.view_facts();
        }
        let mut i: usize = 0;
        while i < self.entries.len()
            invariant
                i <= self.entries@.len(),
                forall|j: int| 0 <= j < i ==> (#[trigger] self.entries@[j]).0@ != key@,
                forall|j: int|
                    0 <= j < self.entries@.len() ==> self@.contains_key(
                        (#[trigger] self.entries@[j]).0@,
                    ) && self@[self.entries@[j].0@] == self.entries@[j].1,
            decreases self.entries.len() - i,
        {
            if text::same_text(self.entries[i].0.as_str(), key) {
                return Some(i);
            }
            i += 1;
        }
        None
    }

    /// The entry of a key.
    pub fn get(&self, key: &str) -> (r: Option<&T>)
        requires
            self.wf(),
        ensures
            match r {
                Some(entry) => self@.contains_key(key@) && *entry == self@[key@],
                None => !self@.contains_key(key@),
            },
    {
        match self.find(key) {
            Some(i) => Some(&self.entries[i].1),
            None => None,
        }
    }

    /// Takes out the entry of a key.
    pub fn remove(&mut self, key: &str) -> (r: Option<T>)
        requires
            old(self).wf(),
        ensures
            final(self).wf(),
            final(self)@ == old(self)@.remove(key@),
            match r {
                Some(entry) => old(self)@.contains_key(key@) && entry == old(self)@[key@]
                    && final(self).count() + 1 == old(self).count(),
                None => !old(self)@.contains_key(key@) && *final(self) == *old(self),
            },
    {
        match self.find(key) {
            Some(i) => {
                let ghost before = *self;
                let (_, entry) = self.entries.remove(i);
                proof {
                    before.view_facts();
                    let (ka, kb) = (self.keys(), before.keys());
                    assert(ka == kb.remove(i as int));
                    assert(self.wf());
                    self.view_facts();
                    assert(self@ =~= before@.remove(key@)) by {
                        assert forall|k: Seq<char>| self@.contains_key(k) == before@.remove(
                            key@,
                        ).contains_key(k) && (self@.contains_key(k) ==> self@[k] == before@[k]) by {
                            if self@.contains_key(k) {
                                let j = choose|j: int|
                                    0 <= j < self.entries@.len() && (
                                    #[trigger] self.entries@[j]).0@ == k;
                                let m = if j < i {
                                    j
                                } else {
                                    j + 1
                                };
                                assert(before.entries@[m] == self.entries@[j]);
                                assert(kb[m] == k);
                                assert(kb[i as int] == key@);
                            }
                            if before@.remove(key@).contains_key(k) {
                                let m = choose|m: int|
                                    0 <= m < before.entries@.len() && (
                                    #[trigger] before.entries@[m]).0@ == k;
                                let j = if m < i {
                                    m
                                } else {
                                    m - 1
                                };
                                assert(self.entries@[j] == before.entries@[m]);
                            }
                        }
                    }
                }
                Some(entry)
            },
            None => {
                assert(self@.remove(key@) =~= self@);
                None
            },
        }
    }

    /// Sets the entry of a key, in place of the one that it had.
    pub fn insert(&mut self, key: &String, entry: T)
        requires
            old(self).wf(),
        ensures
            final(self).wf(),
            final(self)@ == old(self)@.insert(key@, entry),
            !old(self)@.contains_key(key@) ==> final(self).count() == old(self).count() + 1,
    {
        let ghost start = *self;
        let _gone = self.remove(key.as_str());
        let ghost before = *self;
        self.entries.push((key.clone(), entry));
        proof {
            before.view_facts();
            let (ka, kb) = (self.keys(), before.keys());
            assert(ka == kb.push(key@));
            assert forall|i: int| 0 <= i < kb.len() implies kb[i] != key@ by {
                assert(before@.contains_key(before.entries@[i].0@));
            }
            assert(self.wf());
            self.view_facts();
            let n = before.entries@.len() as int;
            assert(self.entries@[n] == (*key, entry));
            let goal = start@.insert(key@, entry);
            assert(self@.contains_key(key@) && self@[key@] == entry);
            assert forall|k: Seq<char>| self@.contains_key(k) implies goal.contains_key(k)
                && self@[k] == goal[k] by {
                let j = choose|j: int|
                    0 <= j < self.entries@.len() && (#[trigger] self.entries@[j]).0@ == k;
                if j < n {
                    assert(before.entries@[j] == self.entries@[j]);
                    assert(before@.contains_key(k));
                }
            }
            assert forall|k: Seq<char>| goal.contains_key(k) implies self@.contains_key(k) by {
                if k != key@ {
                    assert(before@.contains_key(k));
                    let j = choose|j: int|
                        0 <= j < before.entries@.len() && (#[trigger] before.entries@[j]).0@ == k;
                    assert(self.entries@[j] == before.entries@[j]);
                }
            }
            assert(self@ =~= goal);
        }
    }

    /// The key and the value at a position.
    pub fn entry_at(&self, i: usize) -> (r: (&String, &T))
        requires
            i < self.count(),
        ensures
            r.0@ == self.key_at(i as int),
            *r.1 == self.value_at(i as int),
    {
        let entry = &self.entries[i];
        (&entry.0, &entry.1)
    }

    /// Drops every entry.
    pub fn clear(&mut self)
        ensures
            final(self).wf(),
            final(self)@ == Map::<Seq<char>, T>::empty(),
    {
        self.entries.clear();
        assert(self@ =~= Map::<Seq<char>, T>::empty());
    }
}

} // verus!
