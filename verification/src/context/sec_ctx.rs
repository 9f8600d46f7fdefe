//! A security context: for each attribute name, the set of values claimed.

use vstd::prelude::*;
use vstd::std_specs::cmp::PartialEqSpecImpl;

use crate::table::StrTable;

verus! {

/// A security context, such as `role -> {admin, auditor}`.
#[derive(Debug)]
pub struct SecurityContext {
    attrs: StrTable<StrTable<()>>,
}

/// The values that a context gives an attribute: the empty set where it does
/// not name the attribute.
pub open spec fn values_of(ctx: Map<Seq<char>, Set<Seq<char>>>, key: Seq<char>) -> Set<Seq<char>> {
    if ctx.contains_key(key) {
        ctx[key]
    } else {
        Set::empty()
    }
}

/// Two contexts merged: every attribute of either, with the values of both.
pub open spec fn merged(a: Map<Seq<char>, Set<Seq<char>>>, b: Map<Seq<char>, Set<Seq<char>>>) -> Map<
    Seq<char>,
    Set<Seq<char>>,
> {
    Map::new(
        |k: Seq<char>| a.contains_key(k) || b.contains_key(k),
        |k: Seq<char>| values_of(a, k).union(values_of(b, k)),
    )
}

/// The keys of a table, as a set.
pub open spec fn key_set(t: StrTable<()>) -> Set<Seq<char>> {
    Set::new(|v: Seq<char>| t.contains(v))
}

/// Whether `v` is among the first `j + 1` items of `s` is whether it is among
/// the first `j` or is item `j`.
proof fn lemma_take_contains<T>(s: Seq<T>, j: int, v: T)
    requires
        0 <= j < s.len(),
    ensures
        s.take(j + 1).contains(v) <==> s.take(j).contains(v) || s[j] == v,
{
    if s.take(j + 1).contains(v) {
        let x = s.take(j + 1).index_of(v);
        if x < j {
            assert(s.take(j)[x] == v);
        }
    }
    if s.take(j).contains(v) {
        let x = s.take(j).index_of(v);
        assert(s.take(j + 1)[x] == v);
    }
    if s[j] == v {
        assert(s.take(j + 1)[j] == v);
    }
}

impl View for SecurityContext {
    type V = Map<Seq<char>, Set<Seq<char>>>;

    closed spec fn view(&self) -> Map<Seq<char>, Set<Seq<char>>> {
        Map::new(
            |k: Seq<char>| self.attrs.contains(k),
            |k: Seq<char>| key_set(self.attrs.value(k)),
        )
    }
}

impl SecurityContext {
    /// The context that claims nothing.
    pub fn new() -> (r: Self)
        ensures
            r@ == Map::<Seq<char>, Set<Seq<char>>>::empty(),
    {
        let r = SecurityContext { attrs: StrTable::new() };
        assert(r@ =~= Map::<Seq<char>, Set<Seq<char>>>::empty());
        r
    }

    /// Whether the context claims nothing.
    pub fn is_empty(&self) -> (r: bool)
        ensures
            r == (self@ == Map::<Seq<char>, Set<Seq<char>>>::empty()),
    {
        let n = self.attrs.len();
        proof {
            if n == 0 {
                assert(self@ =~= Map::<Seq<char>, Set<Seq<char>>>::empty());
            } else {
                assert(self.attrs.keys().contains(self.attrs.keys()[0]));
                assert(self@.contains_key(self.attrs.keys()[0]));
            }
        }
        n == 0
    }

    /// The names of the attributes, each once.
    pub closed spec fn names(&self) -> Seq<Seq<char>> {
        self.attrs.keys()
    }

    /// How many attributes the context names.
    pub fn len(&self) -> (r: usize)
        ensures
            r == self.names().len(),
            self.names().no_duplicates(),
            forall|k: Seq<char>| self.names().contains(k) <==> self@.contains_key(k),
    {
        self.attrs.len()
    }

    /// Whether the context names the attribute `key`.
    pub fn has_key(&self, key: &str) -> (r: bool)
        ensures
            r == self@.contains_key(key@),
    {
        self.attrs.find(key).is_some()
    }

    /// The values claimed for `key`, each once, in the order they were claimed.
    pub fn get_attrs(&self, key: &str) -> (r: Vec<&str>)
        ensures
            forall|v: Seq<char>|
                values_of(self@, key@).contains(v) <==> exists|i: int|
                    0 <= i < r@.len() && (#[trigger] r@[i])@ == v,
            forall|i: int, j: int| 0 <= i < j < r@.len() ==> r@[i]@ != r@[j]@,
    {
        let mut out: Vec<&str> = Vec::new();
        match self.attrs.get(key) {
            None => {},
            Some(vals) => {
                let n = vals.len();
                let mut i: usize = 0;
                while i < n
                    invariant
                        i <= n,
                        n == vals.keys().len(),
                        vals.ordered(),
                        out@.len() == i,
                        forall|j: int| 0 <= j < i ==> (#[trigger] out@[j])@ == vals.keys()[j],
                    decreases n - i,
                {
                    out.push(vals.key_at(i));
                    i += 1;
                }
                assert forall|v: Seq<char>| values_of(self@, key@).contains(v) implies exists|
                    i: int,
                |
                    0 <= i < out@.len() && (#[trigger] out@[i])@ == v by {
                    let j = vals.keys().index_of(v);
                    assert(out@[j]@ == v);
                }
            },
        }
        out
    }

    /// Adds `value` to the values claimed for `key`.
    pub fn set_attr(&mut self, key: &str, value: &str)
        ensures
            final(self)@ == old(self)@.insert(key@, values_of(old(self)@, key@).insert(value@)),
    {
        let ghost before = *self;
        let mut vals = match self.attrs.remove(key) {
            Some(v) => v,
            None => StrTable::new(),
        };
        let ghost had = vals;
        vals.insert(value, ());
        self.attrs.insert(key, vals);
        proof {
            let want = before@.insert(key@, values_of(before@, key@).insert(value@));
            assert(self.attrs.map() == before.attrs.map().remove(key@).insert(key@, vals));
            assert forall|k: Seq<char>| self@.contains_key(k) == want.contains_key(k) by {
                assert(self.attrs.map().dom().contains(k) == self.attrs.contains(k));
                assert(before.attrs.map().dom().contains(k) == before.attrs.contains(k));
            }
            assert forall|k: Seq<char>| self@.contains_key(k) implies self@[k] =~= want[k] by {
                assert(self.attrs.map()[k] == self.attrs.value(k));
                if k == key@ {
                    assert(vals.map() == had.map().insert(value@, ()));
                    assert forall|v: Seq<char>| vals.contains(v) == (v == value@ || had.contains(
                        v,
                    )) by {
                        assert(vals.map().dom().contains(v) == vals.contains(v));
                        assert(had.map().dom().contains(v) == had.contains(v));
                    }
                } else {
                    assert(before.attrs.map()[k] == before.attrs.value(k));
                }
            }
            assert(self@ =~= want);
        }
    }

    /// Forgets every value claimed for `key`, and the attribute with them.
    pub fn clear_attr(&mut self, key: &str)
        ensures
            final(self)@ == old(self)@.remove(key@),
    {
        let ghost before = *self;
        let _ = self.attrs.remove(key);
        proof {
            let want = before@.remove(key@);
            assert(self.attrs.map() == before.attrs.map().remove(key@));
            assert forall|k: Seq<char>| self@.contains_key(k) == want.contains_key(k) by {
                assert(self.attrs.map().dom().contains(k) == self.attrs.contains(k));
                assert(before.attrs.map().dom().contains(k) == before.attrs.contains(k));
            }
            assert forall|k: Seq<char>| self@.contains_key(k) implies self@[k] =~= want[k] by {
                assert(self.attrs.map()[k] == self.attrs.value(k));
                assert(before.attrs.map()[k] == before.attrs.value(k));
            }
            assert(self@ =~= want);
        }
    }

    /// Whether `value` is among the values claimed for `key`.
    pub fn has(&self, key: &str, value: &str) -> (r: bool)
        ensures
            r == values_of(self@, key@).contains(value@),
    {
        match self.attrs.get(key) {
            Some(vals) => vals.find(value).is_some(),
            None => false,
        }
    }

    /// Makes sure the context names `key`, with no value if it is new.
    fn touch(&mut self, key: &str)
        ensures
            final(self)@ == old(self)@.insert(key@, values_of(old(self)@, key@)),
    {
        let ghost before = *self;
        if self.attrs.find(key).is_none() {
            self.attrs.insert(key, StrTable::new());
            proof {
                let want = before@.insert(key@, Set::empty());
                assert(self.attrs.map() == before.attrs.map().insert(key@, self.attrs.value(key@)));
                assert forall|k: Seq<char>| self@.contains_key(k) == want.contains_key(k) by {
                    assert(self.attrs.map().dom().contains(k) == self.attrs.contains(k));
                    assert(before.attrs.map().dom().contains(k) == before.attrs.contains(k));
                }
                assert forall|k: Seq<char>| self@.contains_key(k) implies self@[k] =~= want[k] by {
                    assert(self.attrs.map()[k] == self.attrs.value(k));
                    if k != key@ {
                        assert(before.attrs.map()[k] == before.attrs.value(k));
                    } else {
                        assert(self.attrs.value(k).keys() =~= Seq::<Seq<char>>::empty());
                    }
                }
                assert(self@ =~= want);
            }
        } else {
            assert(self@ =~= before@.insert(key@, values_of(before@, key@)));
        }
    }

    /// Adds every key of `vals` to the values claimed for `key`.
    fn add_all(&mut self, key: &str, vals: &StrTable<()>)
        ensures
            final(self)@ == old(self)@.insert(
                key@,
                values_of(old(self)@, key@).union(key_set(*vals)),
            ),
    {
        let ghost before = *self;
        self.touch(key);
        let ghost mid = *self;
        let m = vals.len();
        let mut j: usize = 0;
        assert(self@ =~= mid@.insert(
            key@,
            mid@[key@].union(Set::new(|v: Seq<char>| vals.keys().take(0).contains(v))),
        )) by {
            assert(mid@[key@].union(Set::new(|v: Seq<char>| vals.keys().take(0).contains(v)))
                =~= mid@[key@]);
        }
        while j < m
            invariant
                j <= m,
                m == vals.keys().len(),
                mid@.contains_key(key@),
                self@ == mid@.insert(
                    key@,
                    mid@[key@].union(
                        Set::new(|v: Seq<char>| vals.keys().take(j as int).contains(v)),
                    ),
                ),
            decreases m - j,
        {
            self.set_attr(key, vals.key_at(j));
            proof {
                let ks = vals.keys();
                assert forall|v: Seq<char>|
                    ks.take(j as int + 1).contains(v) <==> ks.take(j as int).contains(v) || ks[j as int]
                        == v by {
                    lemma_take_contains(ks, j as int, v);
                }
                let s1 = Set::new(|v: Seq<char>| ks.take(j as int).contains(v));
                let s2 = Set::new(|v: Seq<char>| ks.take(j as int + 1).contains(v));
                assert forall|v: Seq<char>| s2.contains(v) == (s1.contains(v) || v == ks[j as int]) by {
                    lemma_take_contains(ks, j as int, v);
                }
                assert(s2 =~= s1.insert(ks[j as int]));
                assert(mid@[key@].union(s1).insert(ks[j as int]) =~= mid@[key@].union(s2));
                assert(self@ =~= mid@.insert(
                    key@,
                    mid@[key@].union(Set::new(|v: Seq<char>| ks.take(j as int + 1).contains(v))),
                ));
            }
            j += 1;
        }
        proof {
            let ks = vals.keys();
            assert(ks.take(m as int) =~= ks);
            assert(Set::new(|v: Seq<char>| ks.take(m as int).contains(v)) =~= key_set(*vals));
            assert(mid@[key@] == values_of(before@, key@));
            assert(self@ =~= before@.insert(
                key@,
                values_of(before@, key@).union(key_set(*vals)),
            ));
        }
    }

    /// Adds every claim of `other` to this context.
    pub fn merge(&mut self, other: &SecurityContext)
        ensures
            final(self)@ == merged(old(self)@, other@),
    {
        let ghost before = self@;
        let n = other.attrs.len();
        let ghost keys = other.attrs.keys();
        let mut i: usize = 0;
        assert(self@ =~= merged(
            before,
            other@.restrict(Set::new(|k: Seq<char>| keys.take(0).contains(k))),
        )) by {
            let part = other@.restrict(Set::new(|k: Seq<char>| keys.take(0).contains(k)));
            assert forall|k: Seq<char>| before.contains_key(k) implies merged(before, part)[k]
                =~= before[k] by {}
        }
        while i < n
            invariant
                i <= n,
                n == keys.len(),
                keys == other.attrs.keys(),
                other.attrs.ordered(),
                self@ == merged(
                    before,
                    other@.restrict(Set::new(|k: Seq<char>| keys.take(i as int).contains(k))),
                ),
            decreases n - i,
        {
            let key = other.attrs.key_at(i);
            let vals = other.attrs.value_at(i);
            let ghost start = self@;
            self.add_all(key, vals);
            proof {
                assert(keys.contains(key@));
                assert(other@.contains_key(key@));
                assert(other@[key@] == key_set(*vals));
                let was = other@.restrict(Set::new(|k: Seq<char>| keys.take(i as int).contains(k)));
                let now = other@.restrict(
                    Set::new(|k: Seq<char>| keys.take(i as int + 1).contains(k)),
                );
                assert forall|k: Seq<char>|
                    keys.take(i as int + 1).contains(k) <==> keys.take(i as int).contains(k)
                        || keys[i as int] == k by {
                    lemma_take_contains(keys, i as int, k);
                }
                assert(!keys.take(i as int).contains(key@)) by {
                    if keys.take(i as int).contains(key@) {
                        let x = keys.take(i as int).index_of(key@);
                        assert(keys[x] == key@);
                    }
                }
                let want = merged(before, now);
                assert forall|k: Seq<char>| self@.contains_key(k) == want.contains_key(k) by {}
                assert forall|k: Seq<char>| self@.contains_key(k) implies self@[k] =~= want[k] by {
                    if k == key@ {
                        assert(values_of(was, k) =~= Set::<Seq<char>>::empty());
                        assert(values_of(now, k) == other@[k]);
                        assert(values_of(start, k) =~= values_of(before, k));
                    } else {
                        assert(values_of(was, k) == values_of(now, k));
                    }
                }
                assert(self@ =~= want);
            }
            i += 1;
        }
        proof {
            assert(keys.take(n as int) =~= keys);
            assert(other@.restrict(Set::new(|k: Seq<char>| keys.take(n as int).contains(k)))
                =~= other@);
        }
    }

    /// Whether every claim of this context is a claim of `other`, and every
    /// attribute it names is named by `other`.
    fn within(&self, other: &SecurityContext) -> (r: bool)
        ensures
            r == (forall|k: Seq<char>| #[trigger]
                self@.contains_key(k) ==> other@.contains_key(k) && self@[k].subset_of(other@[k])),
    {
        let n = self.attrs.len();
        let mut i: usize = 0;
        while i < n
            invariant
                i <= n,
                n == self.attrs.keys().len(),
                self.attrs.ordered(),
                forall|x: int|
                    0 <= x < i ==> other@.contains_key(#[trigger] self.attrs.keys()[x])
                        && self@[self.attrs.keys()[x]].subset_of(other@[self.attrs.keys()[x]]),
            decreases n - i,
        {
            let key = self.attrs.key_at(i);
            let vals = self.attrs.value_at(i);
            assert(self.attrs.keys().contains(key@));
            assert(self@.contains_key(key@));
            assert(self@[key@] == key_set(*vals));
            match other.attrs.get(key) {
                None => {
                    return false;
                },
                Some(theirs) => {
                    assert(other@[key@] == key_set(*theirs));
                    let m = vals.len();
                    let mut j: usize = 0;
                    while j < m
                        invariant
                            j <= m,
                            m == vals.keys().len(),
                            vals.ordered(),
                            self@.contains_key(key@),
                            other@.contains_key(key@),
                            self@[key@] == key_set(*vals),
                            other@[key@] == key_set(*theirs),
                            forall|y: int| 0 <= y < j ==> theirs.contains(#[trigger] vals.keys()[y]),
                        decreases m - j,
                    {
                        if theirs.find(vals.key_at(j)).is_none() {
                            assert(vals.keys().contains(vals.keys()[j as int]));
                            assert(self@[key@].contains(vals.keys()[j as int]));
                            assert(!other@[key@].contains(vals.keys()[j as int]));
                            return false;
                        }
                        j += 1;
                    }
                    assert(self@[key@].subset_of(other@[key@])) by {
                        assert forall|v: Seq<char>| self@[key@].contains(v) implies other@[key@].contains(
                            v,
                        ) by {
                            let y = vals.keys().index_of(v);
                            assert(theirs.contains(vals.keys()[y]));
                        }
                    }
                },
            }
            i += 1;
        }
        assert forall|k: Seq<char>| #[trigger] self@.contains_key(k) implies other@.contains_key(k)
            && self@[k].subset_of(other@[k]) by {
            let x = self.attrs.keys().index_of(k);
            assert(self.attrs.keys()[x] == k);
        }
        true
    }
}

impl Default for SecurityContext {
    fn default() -> (r: Self)
        ensures
            r@ == Map::<Seq<char>, Set<Seq<char>>>::empty(),
    {
        SecurityContext::new()
    }
}

impl Clone for SecurityContext {
    fn clone(&self) -> (r: Self)
        ensures
            r@ == self@,
    {
        let mut r = SecurityContext::new();
        r.merge(self);
        proof {
            assert forall|k: Seq<char>| self@.contains_key(k) implies r@[k] =~= self@[k] by {}
            assert(r@ =~= self@);
        }
        r
    }
}

impl PartialEq for SecurityContext {
    fn eq(&self, other: &SecurityContext) -> (r: bool) {
        let r = self.within(other) && other.within(self);
        proof {
            if r {
                assert forall|k: Seq<char>| self@.contains_key(k) implies self@[k] =~= other@[k] by {}
                assert(self@ =~= other@);
            }
        }
        r
    }
}

impl PartialEqSpecImpl for SecurityContext {
    open spec fn obeys_eq_spec() -> bool {
        true
    }

    open spec fn eq_spec(&self, other: &SecurityContext) -> bool {
        self@ == other@
    }
}

} // verus!
