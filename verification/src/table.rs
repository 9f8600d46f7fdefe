//! A small map keyed by text that remembers the order in which keys arrived.

use vstd::prelude::*;

use crate::text::str_eq;

verus! {

#[derive(Debug)]
struct Entry<V> {
    key: String,
    val: V,
}

/// A map from text to `V`. No key occurs twice; keys keep the order in which
/// they were first inserted.
#[derive(Debug)]
pub struct StrTable<V> {
    entries: Vec<Entry<V>>,
}

impl<V> StrTable<V> {
    #[verifier::type_invariant]
    spec fn inv(&self) -> bool {
        forall|i: int, j: int|
            0 <= i < j < self.entries@.len() ==> self.entries@[i].key@ != self.entries@[j].key@
    }

    /// The keys, in order of arrival.
    pub closed spec fn keys(&self) -> Seq<Seq<char>> {
        Seq::new(self.entries@.len(), |i: int| self.entries@[i].key@)
    }

    /// The values, each at the position of its key.
    pub closed spec fn vals(&self) -> Seq<V> {
        Seq::new(self.entries@.len(), |i: int| self.entries@[i].val)
    }

    /// Whether the keys and values line up and no key occurs twice. This holds
    /// of every table; the methods below say so where a caller needs it.
    pub open spec fn ordered(&self) -> bool {
        self.keys().len() == self.vals().len() && self.keys().no_duplicates()
    }

    /// Whether `key` has a value.
    pub open spec fn contains(&self, key: Seq<char>) -> bool {
        self.keys().contains(key)
    }

    /// The value of `key`, where it has one.
    pub open spec fn value(&self, key: Seq<char>) -> V {
        self.vals()[self.keys().index_of(key)]
    }

    /// The table as a map.
    pub open spec fn map(&self) -> Map<Seq<char>, V> {
        Map::new(|k: Seq<char>| self.contains(k), |k: Seq<char>| self.value(k))
    }

    /// The empty table.
    pub fn new() -> (r: Self)
        ensures
            r.keys() == Seq::<Seq<char>>::empty(),
            r.vals() == Seq::<V>::empty(),
            r.ordered(),
    {
        let r = StrTable { entries: Vec::new() };
        assert(r.keys() =~= Seq::<Seq<char>>::empty());
        assert(r.vals() =~= Seq::<V>::empty());
        r
    }

    /// How many keys the table holds.
    pub fn len(&self) -> (r: usize)
        ensures
            r == self.keys().len(),
            self.ordered(),
    {
        proof {
            use_type_invariant(self);
        }
        self.entries.len()
    }

    /// The position of `key`, if it has one.
    pub fn find(&self, key: &str) -> (r: Option<usize>)
        ensures
            self.ordered(),
            r is Some <==> self.contains(key@),
            r is Some ==> r->0 < self.keys().len() && self.keys()[r->0 as int] == key@
                && self.keys().index_of(key@) == r->0,
    {
        proof {
            use_type_invariant(self);
        }
        let mut i: usize = 0;
        while i < self.entries.len()
            invariant
                i <= self.entries@.len(),
                forall|j: int| 0 <= j < i ==> self.keys()[j] != key@,
                self.keys().len() == self.entries@.len(),
                self.ordered(),
            decreases self.entries@.len() - i,
        {
            if str_eq(self.entries[i].key.as_str(), key) {
                assert(self.keys()[i as int] == key@);
                assert(self.keys().contains(key@));
                return Some(i);
            }
            i += 1;
        }
        None
    }

    /// The value of `key`, if it has one.
    pub fn get(&self, key: &str) -> (r: Option<&V>)
        ensures
            self.ordered(),
            r is Some <==> self.contains(key@),
            r is Some ==> *r->0 == self.value(key@),
    {
        match self.find(key) {
            Some(i) => Some(&self.entries[i].val),
            None => None,
        }
    }

    /// The key at position `i`.
    pub fn key_at(&self, i: usize) -> (r: &str)
        requires
            i < self.keys().len(),
        ensures
            r@ == self.keys()[i as int],
    {
        self.entries[i].key.as_str()
    }

    /// The value at position `i`.
    pub fn value_at(&self, i: usize) -> (r: &V)
        requires
            i < self.keys().len(),
        ensures
            *r == self.vals()[i as int],
            self.ordered(),
            *r == self.value(self.keys()[i as int]),
    {
        proof {
            use_type_invariant(self);
            let k = self.keys()[i as int];
            assert(self.keys().contains(k));
        }
        &self.entries[i].val
    }

    /// Gives `key` the value `val`: in place if the key is there, at the end if
    /// it is new.
    pub fn insert(&mut self, key: &str, val: V)
        ensures
            final(self).ordered(),
            final(self).map() == old(self).map().insert(key@, val),
            old(self).contains(key@) ==> final(self).keys() == old(self).keys() && final(self).vals() == old(self).vals().update(old(self).keys().index_of(key@), val),
            !old(self).contains(key@) ==> final(self).keys() == old(self).keys().push(key@)
                && final(self).vals() == old(self).vals().push(val),
    {
        proof {
            use_type_invariant(&*self);
        }
        let ghost before = *self;
        match self.find(key) {
            Some(i) => {
                let mut entries: Vec<Entry<V>> = Vec::new();
                std::mem::swap(&mut self.entries, &mut entries);
                entries.set(i, Entry { key: key.to_owned(), val });
                assert forall|a: int, b: int| 0 <= a < b < entries@.len() implies entries@[a].key@
                    != entries@[b].key@ by {
                    assert(before.entries@[a].key@ != before.entries@[b].key@);
                }
                self.entries = entries;
                assert(self.keys() =~= before.keys());
                assert(self.vals() =~= before.vals().update(i as int, val));
            },
            None => {
                let mut entries: Vec<Entry<V>> = Vec::new();
                std::mem::swap(&mut self.entries, &mut entries);
                entries.push(Entry { key: key.to_owned(), val });
                assert forall|a: int, b: int| 0 <= a < b < entries@.len() implies entries@[a].key@
                    != entries@[b].key@ by {
                    if b < before.entries@.len() {
                        assert(before.entries@[a].key@ != before.entries@[b].key@);
                    } else {
                        assert(before.keys()[a] == before.entries@[a].key@);
                    }
                }
                self.entries = entries;
                assert(self.keys() =~= before.keys().push(key@));
                assert(self.vals() =~= before.vals().push(val));
            },
        }
        proof {
            let after = *self;
            assert forall|k: Seq<char>| after.contains(k) <==> (k == key@ || before.contains(
                k,
            )) by {
                if after.contains(k) {
                    let j = after.keys().index_of(k);
                    if k != key@ {
                        assert(before.keys()[j] == k);
                    }
                }
                if before.contains(k) {
                    let j = before.keys().index_of(k);
                    assert(after.keys()[j] == k);
                }
                if k == key@ {
                    if before.contains(key@) {
                    } else {
                        assert(after.keys()[after.keys().len() - 1] == k);
                    }
                }
            }
            assert forall|k: Seq<char>| after.contains(k) implies #[trigger] after.value(k) == (if k
                == key@ {
                val
            } else {
                before.value(k)
            }) by {
                let j = after.keys().index_of(k);
                if k != key@ {
                    assert(before.keys()[j] == k);
                    assert(before.keys().index_of(k) == j);
                }
            }
            assert(after.map() =~= before.map().insert(key@, val));
        }
    }

    /// Takes `key` and its value out of the table.
    pub fn remove(&mut self, key: &str) -> (r: Option<V>)
        ensures
            final(self).ordered(),
            final(self).map() == old(self).map().remove(key@),
            r is Some <==> old(self).contains(key@),
            r is Some ==> r->0 == old(self).value(key@),
            !old(self).contains(key@) ==> final(self).keys() == old(self).keys() && final(self).vals() == old(self).vals(),
            old(self).contains(key@) ==> final(self).keys() == old(self).keys().remove(
                old(self).keys().index_of(key@),
            ) && final(self).vals() == old(self).vals().remove(old(self).keys().index_of(key@)),
    {
        proof {
            use_type_invariant(&*self);
        }
        let ghost before = *self;
        match self.find(key) {
            Some(i) => {
                let mut entries: Vec<Entry<V>> = Vec::new();
                std::mem::swap(&mut self.entries, &mut entries);
                let e = entries.remove(i);
                assert forall|a: int, b: int| 0 <= a < b < entries@.len() implies entries@[a].key@
                    != entries@[b].key@ by {
                    let a0 = if a < i { a } else { a + 1 };
                    let b0 = if b < i { b } else { b + 1 };
                    assert(before.entries@[a0].key@ != before.entries@[b0].key@);
                }
                self.entries = entries;
                proof {
                    let after = *self;
                    assert(after.keys() =~= before.keys().remove(i as int));
                    assert(after.vals() =~= before.vals().remove(i as int));
                    assert forall|k: Seq<char>| after.contains(k) <==> (k != key@
                        && before.contains(k)) by {
                        if after.contains(k) {
                            let j = after.keys().index_of(k);
                            if j < i {
                                assert(before.keys()[j] == k);
                            } else {
                                assert(before.keys()[j + 1] == k);
                            }
                        }
                        if k != key@ && before.contains(k) {
                            let j = before.keys().index_of(k);
                            if j < i {
                                assert(after.keys()[j] == k);
                            } else {
                                assert(after.keys()[j - 1] == k);
                            }
                        }
                    }
                    assert forall|k: Seq<char>| after.contains(k) implies #[trigger] after.value(k)
                        == before.value(k) by {
                        let j = after.keys().index_of(k);
                        if j < i {
                            assert(before.keys()[j] == k);
                        } else {
                            assert(before.keys()[j + 1] == k);
                        }
                    }
                    assert(after.map() =~= before.map().remove(key@));
                }
                Some(e.val)
            },
            None => {
                assert(self.map() =~= before.map().remove(key@));
                None
            },
        }
    }
}

} // verus!
