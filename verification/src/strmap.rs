//! A map keyed by strings that keeps its entries in a vector.
//!
//! Lookups compare keys one by one. No key occurs twice, and an entry keeps
//! its place until it is removed.

use vstd::prelude::*;
use crate::text::str_eq;

verus! {

/// One entry of a map: a key and the value stored under it.
struct Entry<V> {
    key: String,
    value: V,
}

/// A map from strings to values of type `V`.
pub struct StringMap<V> {
    entries: Vec<Entry<V>>,
}

/// The keys of `entries`, in their order.
spec fn keys_of<V>(entries: Seq<Entry<V>>) -> Seq<Seq<char>> {
    Seq::new(entries.len(), |i: int| entries[i].key@)
}

impl<V> View for StringMap<V> {
    type V = Map<Seq<char>, V>;

    /// The entries as a mathematical map from key to value.
    closed spec fn view(&self) -> Map<Seq<char>, V> {
        Map::new(
            |k: Seq<char>| self.key_seq().contains(k),
            |k: Seq<char>| self.entries[self.key_seq().index_of(k)].value,
        )
    }
}

impl<V> StringMap<V> {
    /// The keys in the order in which the entries are stored.
    pub closed spec fn key_seq(&self) -> Seq<Seq<char>> {
        keys_of(self.entries@)
    }

    /// The values in the order in which the entries are stored.
    pub closed spec fn value_seq(&self) -> Seq<V> {
        Seq::new(self.entries.len() as nat, |i: int| self.entries[i].value)
    }

    /// No key occurs twice.
    #[verifier::type_invariant]
    pub closed spec fn inv(&self) -> bool {
        self.key_seq().no_duplicates()
    }

    /// How the stored order relates to the map: the keys list the domain
    /// without repetition, and each value sits at the index of its key.
    pub proof fn lemma_entries(&self)
        requires
            self.inv(),
        ensures
            self.key_seq().len() == self.value_seq().len(),
            self.key_seq().no_duplicates(),
            self@.dom() == self.key_seq().to_set(),
            self@.dom().finite(),
            self@.dom().len() == self.key_seq().len(),
            forall|i: int|
                0 <= i < self.key_seq().len() ==> self@.contains_key(#[trigger] self.key_seq()[i])
                    && self@[self.key_seq()[i]] == self.value_seq()[i],
    {
        let ks = self.key_seq();
        assert(self@.dom() =~= ks.to_set());
        vstd::seq_lib::seq_to_set_is_finite(ks);
        ks.unique_seq_to_set();
        assert forall|i: int| 0 <= i < ks.len() implies self@.contains_key(#[trigger] ks[i])
            && self@[ks[i]] == self.value_seq()[i] by {
            assert(ks.contains(ks[i]));
            assert(ks.index_of(ks[i]) == i);
        }
    }

    /// An empty map.
    pub fn new() -> (r: Self)
        ensures
            r@ == Map::<Seq<char>, V>::empty(),
            r.key_seq() == Seq::<Seq<char>>::empty(),
    {
        let r = StringMap { entries: Vec::new() };
        assert(r.key_seq() =~= Seq::<Seq<char>>::empty());
        assert(r@ =~= Map::<Seq<char>, V>::empty());
        r
    }

    /// The number of entries.
    pub fn len(&self) -> (n: usize)
        ensures
            n == self.key_seq().len(),
            n == self@.dom().len(),
    {
        proof {
            use_type_invariant(self);
            self.lemma_entries();
        }
        self.entries.len()
    }

    /// The index at which `key` is stored, if it is a key of the map.
    pub fn position(&self, key: &str) -> (r: Option<usize>)
        ensures
            match r {
                Some(i) => i < self.key_seq().len() && self.key_seq()[i as int] == key@,
                None => !self.key_seq().contains(key@),
            },
            r is Some <==> self@.contains_key(key@),
    {
        let mut i: usize = 0;
        while i < self.entries.len()
            invariant
                i <= self.entries.len(),
                forall|k: int| 0 <= k < i ==> self.key_seq()[k] != key@,
            decreases self.entries.len() - i,
        {
            if str_eq(self.entries[i].key.as_str(), key) {
                assert(self.key_seq()[i as int] == key@);
                assert(self.key_seq().contains(key@));
                return Some(i);
            }
            i = i + 1;
        }
        None
    }

    /// Whether `key` is a key of the map.
    pub fn contains_key(&self, key: &str) -> (r: bool)
        ensures
            r == self@.contains_key(key@),
    {
        self.position(key).is_some()
    }

    /// The value stored under `key`.
    pub fn get(&self, key: &str) -> (r: Option<&V>)
        ensures
            match r {
                Some(v) => self@.contains_key(key@) && *v == self@[key@],
                None => !self@.contains_key(key@),
            },
    {
        proof {
            use_type_invariant(self);
            self.lemma_entries();
        }
        match self.position(key) {
            Some(i) => Some(&self.entries[i].value),
            None => None,
        }
    }

    /// The key of the entry stored at index `i`.
    pub fn key_at(&self, i: usize) -> (r: &String)
        requires
            i < self.key_seq().len(),
        ensures
            r@ == self.key_seq()[i as int],
    {
        &self.entries[i].key
    }

    /// The value of the entry stored at index `i`.
    pub fn value_at(&self, i: usize) -> (r: &V)
        requires
            i < self.key_seq().len(),
        ensures
            *r == self.value_seq()[i as int],
    {
        &self.entries[i].value
    }

    /// Stores `value` under `key` and returns the value it replaces, if any.
    pub fn insert(&mut self, key: String, value: V) -> (r: Option<V>)
        ensures
            final(self)@ == old(self)@.insert(key@, value),
            r == if old(self)@.contains_key(key@) {
                Some(old(self)@[key@])
            } else {
                None::<V>
            },
    {
        proof {
            use_type_invariant(&*self);
            self.lemma_entries();
        }
        let found = self.position(key.as_str());
        let ghost before = *self;
        let ghost k = key@;
        let mut entries: Vec<Entry<V>> = Vec::new();
        core::mem::swap(&mut self.entries, &mut entries);
        let r = match found {
            Some(i) => {
                let mut slot = value;
                core::mem::swap(&mut entries[i].value, &mut slot);
                Some(slot)
            },
            None => {
                entries.push(Entry { key, value });
                None
            },
        };
        proof {
            match found {
                Some(i) => {
                    assert(keys_of(entries@) =~= before.key_seq());
                },
                None => {
                    assert(keys_of(entries@) =~= before.key_seq().push(k));
                },
            }
        }
        self.entries = entries;
        proof {
            let ks = self.key_seq();
            let old_ks = before.key_seq();
            assert forall|s: Seq<char>| self@.contains_key(s) <==> before@.insert(k, value).contains_key(s) by {
                match found {
                    Some(i) => {},
                    None => {
                        vstd::seq_lib::lemma_seq_contains_after_push(old_ks, k, s);
                    },
                }
            }
            assert forall|s: Seq<char>| self@.contains_key(s) implies self@[s] == before@.insert(k, value)[s] by {
                let j = ks.index_of(s);
                assert(ks[j] == s);
                if s == k {
                    match found {
                        Some(i) => { assert(j == i); },
                        None => { assert(j == old_ks.len()); },
                    }
                } else {
                    assert(old_ks[j] == s);
                    assert(old_ks.index_of(s) == j);
                }
            }
            assert(self@ =~= before@.insert(k, value));
        }
        r
    }

    /// Removes the entry stored under `key` and returns its value, if there
    /// is one. The other entries keep their order.
    pub fn remove(&mut self, key: &str) -> (r: Option<V>)
        ensures
            final(self)@ == old(self)@.remove(key@),
            r == if old(self)@.contains_key(key@) {
                Some(old(self)@[key@])
            } else {
                None::<V>
            },
    {
        proof {
            use_type_invariant(&*self);
            self.lemma_entries();
        }
        let ghost before = *self;
        match self.position(key) {
            Some(i) => {
                let mut entries: Vec<Entry<V>> = Vec::new();
                core::mem::swap(&mut self.entries, &mut entries);
                let removed = entries.remove(i);
                proof {
                    let old_ks = before.key_seq();
                    assert(keys_of(entries@) =~= old_ks.remove(i as int));
                }
                self.entries = entries;
                proof {
                    let ks = self.key_seq();
                    let old_ks = before.key_seq();
                    assert forall|s: Seq<char>| self@.contains_key(s) <==> before@.remove(key@).contains_key(s) by {
                        if ks.contains(s) {
                            let j = ks.index_of(s);
                            assert(ks[j] == s);
                            if j < i {
                                assert(old_ks[j] == s);
                            } else {
                                assert(old_ks[j + 1] == s);
                            }
                        }
                        if old_ks.contains(s) && s != key@ {
                            let j = old_ks.index_of(s);
                            assert(old_ks[j] == s);
                            if j < i {
                                assert(ks[j] == s);
                            } else {
                                assert(ks[j - 1] == s);
                            }
                        }
                    }
                    assert forall|s: Seq<char>| self@.contains_key(s) implies self@[s] == before@.remove(key@)[s] by {
                        let j = ks.index_of(s);
                        assert(ks[j] == s);
                        if j < i {
                            assert(old_ks[j] == s);
                            assert(old_ks.index_of(s) == j);
                        } else {
                            assert(old_ks[j + 1] == s);
                            assert(old_ks.index_of(s) == j + 1);
                        }
                    }
                    assert(self@ =~= before@.remove(key@));
                }
                Some(removed.value)
            },
            None => {
                assert(self@ =~= before@.remove(key@));
                None
            },
        }
    }
}

} // verus!
