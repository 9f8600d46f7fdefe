//! The keyring of one database: the data key of each scope, in the clear in
//! memory and wrapped for the sidecar file.

use std::collections::HashMap;
use vstd::prelude::*;

use crate::crypto::envelope::{unwrap_dek, unwrap_outcome, wrap_dek, wraps};
use crate::crypto::keys::{Dek, KeyScope, WrappedDek, WrappedDekView};
use crate::error::EvfsError;
use crate::kms::KmsProvider;
use crate::text::chars_of;
use crate::table::StrTable;

verus! {

broadcast use vstd::std_specs::hash::group_hash_axioms;

/// What the sidecar file holds: wrapped keys only, by scope.
pub struct PersistedKeyring {
    pub keys: StrTable<WrappedDek>,
}

/// Where the last `c` stands in `s` at or after `from`; -1 if there is none.
pub open spec fn last_index_of(s: Seq<char>, c: char, from: int) -> int
    decreases s.len(),
{
    if s.len() <= from || s.len() == 0 {
        -1
    } else if s.last() == c {
        s.len() - 1
    } else {
        last_index_of(s.drop_last(), c, from)
    }
}

/// Where the extension of a path begins, dot included: at the last dot of the
/// file's name, which is what follows the last `/`. A dot at the very front of
/// the name begins no extension. Where there is no extension, the answer is
/// the path's length.
pub open spec fn extension_start(path: Seq<char>) -> int {
    let name = last_index_of(path, '/', 0) + 1;
    let dot = last_index_of(path, '.', name + 1);
    if dot < 0 {
        path.len() as int
    } else {
        dot
    }
}

/// Where the sidecar of the database at `db_path` lies: beside it, under the
/// same name with the extension `keyring` in place of its own.
pub open spec fn sidecar_of(db_path: Seq<char>) -> Seq<char> {
    db_path.subrange(0, extension_start(db_path)) + ".keyring"@
}

fn find_last(s: &Vec<char>, c: char, from: usize) -> (r: Option<usize>)
    ensures
        match r {
            Some(i) => last_index_of(s@, c, from as int) == i && from <= i < s@.len(),
            None => last_index_of(s@, c, from as int) == -1,
        },
{
    let mut i: usize = s.len();
    assert(s@.take(i as int) =~= s@);
    while i > from
        invariant
            i <= s@.len(),
            last_index_of(s@, c, from as int) == last_index_of(s@.take(i as int), c, from as int),
        decreases i,
    {
        proof {
            let t = s@.take(i as int);
            assert(t.last() == s@[i - 1]);
            assert(t.drop_last() =~= s@.take(i - 1));
        }
        if s[i - 1] == c {
            return Some(i - 1);
        }
        i -= 1;
    }
    None
}

/// The path of the sidecar file of the database at `db_path`.
pub fn sidecar_path_for(db_path: &str) -> (r: String)
    ensures
        r@ == sidecar_of(db_path@),
{
    let chars = chars_of(db_path);
    let len = chars.len();
    let name: usize = match find_last(&chars, '/', 0) {
        Some(i) => i + 1,
        None => 0,
    };
    let cut: usize = if name >= len {
        len
    } else {
        match find_last(&chars, '.', name + 1) {
            Some(dot) => dot,
            None => len,
        }
    };
    let mut out = db_path.substring_char(0, cut).to_owned();
    out.append(".keyring");
    out
}

/// The contents of a keyring, as mathematics.
pub struct KeyringState {
    /// The data key of each scope that has been resolved, in the clear.
    pub cached: Map<Seq<char>, Seq<u8>>,
    /// The wrapped key of each scope, as the sidecar holds or will hold it.
    pub persisted: Map<Seq<char>, WrappedDekView>,
    /// The sidecar's path, once the keyring is bound to a database.
    pub sidecar: Option<Seq<char>>,
    /// Whether `persisted` holds something the sidecar file does not yet.
    pub unsaved: bool,
}

/// The keyring of one database.
pub struct Keyring<P: KmsProvider> {
    provider: P,
    cache: StrTable<Dek>,
    persisted: PersistedKeyring,
    sidecar_path: Option<String>,
    unsaved: bool,
}

impl KeyringState {
    /// Whether the scope named `key` has neither a cached key nor a wrapped
    /// one: its key is yet to be made.
    pub open spec fn lacks(self, key: Seq<char>) -> bool {
        !self.cached.contains_key(key) && !self.persisted.contains_key(key)
    }
}

/// How a call of `dek_for` on `key` may take a keyring from `pre` to `post`
/// with the answer `r` (a key's bytes, or an error).
///
/// A cached key is returned and nothing changes. Otherwise a failure changes
/// nothing; a success caches the key it returns, and, if the scope had no
/// wrapped key yet, gains one for it and marks the keyring unsaved.
pub open spec fn dek_for_step(
    pre: KeyringState,
    key: Seq<char>,
    r: Result<Seq<u8>, EvfsError>,
    post: KeyringState,
) -> bool {
    if pre.cached.contains_key(key) {
        r == Ok::<Seq<u8>, EvfsError>(pre.cached[key]) && post == pre
    } else {
        match r {
            Err(_) => post == pre,
            Ok(dek) => {
                &&& post.cached == pre.cached.insert(key, dek)
                &&& post.sidecar == pre.sidecar
                &&& if pre.persisted.contains_key(key) {
                    post.persisted == pre.persisted && post.unsaved == pre.unsaved
                } else {
                    post.persisted.contains_key(key) && post.persisted == pre.persisted.insert(
                        key,
                        post.persisted[key],
                    ) && post.unsaved
                }
            },
        }
    }
}

/// Once a scope's key has been resolved, resolving it again returns the same
/// key and changes nothing.
pub proof fn dek_for_is_idempotent(
    s0: KeyringState,
    s1: KeyringState,
    s2: KeyringState,
    key: Seq<char>,
    r1: Result<Seq<u8>, EvfsError>,
    r2: Result<Seq<u8>, EvfsError>,
)
    requires
        dek_for_step(s0, key, r1, s1),
        dek_for_step(s1, key, r2, s2),
        r1 is Ok,
    ensures
        r2 == r1,
        s2 == s1,
{
}

/// The scope that protects page `page_no`: the one the map gives it, or the
/// whole database where there is no map or no entry.
pub open spec fn scope_of_page(page_no: u32, page_scope_map: Option<Map<u32, KeyScope>>) -> KeyScope {
    match page_scope_map {
        Some(m) => if m.contains_key(page_no) {
            m[page_no]
        } else {
            KeyScope::Database
        },
        None => KeyScope::Database,
    }
}

impl<P: KmsProvider> Keyring<P> {
    /// The keyring's contents.
    pub closed spec fn state(&self) -> KeyringState {
        KeyringState {
            cached: Map::new(
                |k: Seq<char>| self.cache.contains(k),
                |k: Seq<char>| self.cache.value(k)@,
            ),
            persisted: Map::new(
                |k: Seq<char>| self.persisted.keys.contains(k),
                |k: Seq<char>| self.persisted.keys.value(k)@,
            ),
            sidecar: match self.sidecar_path {
                Some(p) => Some(p@),
                None => None,
            },
            unsaved: self.unsaved,
        }
    }

    /// The provider whose keys wrap this keyring's data keys.
    pub closed spec fn kms(&self) -> &P {
        &self.provider
    }

    /// Whether every cached key is the key that its wrapped form holds: each
    /// scope with a cached key has a wrapped key, and that wrapped key is the
    /// cached one, sealed under a key of the provider.
    pub open spec fn consistent(&self) -> bool {
        forall|k: Seq<char>| #[trigger]
            self.state().cached.contains_key(k) ==> self.state().persisted.contains_key(k)
                && wraps(self.kms(), self.state().persisted[k], self.state().cached[k])
    }

    /// An empty keyring over `provider`, bound to no database yet.
    pub fn new(provider: P) -> (r: Self)
        ensures
            r.consistent(),
            r.kms() == &provider,
            r.state() == (KeyringState {
                cached: Map::empty(),
                persisted: Map::empty(),
                sidecar: None,
                unsaved: false,
            }),
    {
        let r = Keyring {
            provider,
            cache: StrTable::new(),
            persisted: PersistedKeyring { keys: StrTable::new() },
            sidecar_path: None,
            unsaved: false,
        };
        assert(r.state().cached =~= Map::empty());
        assert(r.state().persisted =~= Map::empty());
        r
    }

    /// Binds the keyring to the database at `db_path`: its sidecar lies at
    /// `sidecar_path_for(db_path)`. `existing` is what that file holds, if it
    /// exists and could be read; it then replaces the wrapped keys held so far.
    ///
    /// To be called for the main database file only, never for a journal, a
    /// write-ahead log or a temporary file.
    pub fn set_sidecar_path(&mut self, db_path: &str, existing: Option<PersistedKeyring>)
        ensures
            final(self).kms() == old(self).kms(),
            old(self).consistent() && (existing is None || old(self).state().cached
                == Map::<Seq<char>, Seq<u8>>::empty()) ==> final(self).consistent(),
            final(self).state().cached == old(self).state().cached,
            final(self).state().sidecar == Some(sidecar_of(db_path@)),
            final(self).state().unsaved == old(self).state().unsaved,
            match existing {
                Some(kr) => final(self).state().persisted == Map::new(
                    |k: Seq<char>| kr.keys.contains(k),
                    |k: Seq<char>| kr.keys.value(k)@,
                ),
                None => final(self).state().persisted == old(self).state().persisted,
            },
    {
        let ghost before = *self;
        let sidecar = sidecar_path_for(db_path);
        match existing {
            Some(kr) => {
                self.persisted = kr;
            },
            None => {},
        }
        self.sidecar_path = Some(sidecar);
        proof {
            assert(self.state().cached =~= before.state().cached);
            if existing is None {
                assert(self.state().persisted =~= before.state().persisted);
            }
            if before.consistent() && (existing is None || before.state().cached == Map::<
                Seq<char>,
                Seq<u8>,
            >::empty()) {
                assert forall|k: Seq<char>| #[trigger]
                    self.state().cached.contains_key(k) implies self.state().persisted.contains_key(
                    k,
                ) && wraps(self.kms(), self.state().persisted[k], self.state().cached[k]) by {
                    assert(before.state().cached.contains_key(k));
                }
            }
        }
    }

    /// Notes that the sidecar file now holds every wrapped key.
    pub fn mark_saved(&mut self)
        ensures
            final(self).kms() == old(self).kms(),
            old(self).consistent() ==> final(self).consistent(),
            final(self).state() == (KeyringState { unsaved: false, ..old(self).state() }),
    {
        self.unsaved = false;
    }

    /// Whether a wrapped key has been added or replaced since the sidecar was
    /// last written.
    pub fn needs_flush(&self) -> (r: bool)
        ensures
            r == self.state().unsaved,
    {
        self.unsaved
    }

    /// The sidecar's path, once bound.
    pub fn sidecar_path(&self) -> (r: Option<&str>)
        ensures
            match r {
                Some(p) => self.state().sidecar == Some(p@),
                None => self.state().sidecar is None,
            },
    {
        match &self.sidecar_path {
            Some(p) => Some(p.as_str()),
            None => None,
        }
    }

    /// The wrapped keys, as the sidecar is to hold them.
    pub fn persisted(&self) -> (r: &PersistedKeyring)
        ensures
            self.state().persisted == Map::new(
                |k: Seq<char>| r.keys.contains(k),
                |k: Seq<char>| r.keys.value(k)@,
            ),
    {
        &self.persisted
    }

    /// Records `dek` as the key named `key`, together with its wrapped form if
    /// one was just made for it.
    fn remember(&mut self, key: &str, dek: Dek, wrapped: Option<WrappedDek>)
        ensures
            final(self).kms() == old(self).kms(),
            final(self).state().cached == old(self).state().cached.insert(key@, dek@),
            final(self).state().sidecar == old(self).state().sidecar,
            match wrapped {
                Some(w) => final(self).state().persisted == old(self).state().persisted.insert(
                    key@,
                    w@,
                ) && final(self).state().unsaved,
                None => final(self).state().persisted == old(self).state().persisted && final(self).state().unsaved == old(self).state().unsaved,
            },
    {
        let ghost before = *self;
        self.cache.insert(key, dek);
        assert(self.state().cached =~= before.state().cached.insert(key@, dek@)) by {
            assert(self.cache.map() == before.cache.map().insert(key@, dek));
            assert forall|k: Seq<char>|
                self.cache.contains(k) == before.cache.map().insert(key@, dek).dom().contains(
                    k,
                ) by {
                assert(self.cache.map().dom().contains(k) == self.cache.contains(k));
            }
            assert forall|k: Seq<char>| self.cache.contains(k) implies self.cache.value(k)
                == before.cache.map().insert(key@, dek)[k] by {
                assert(self.cache.map()[k] == self.cache.value(k));
            }
            assert forall|k: Seq<char>| before.cache.contains(k) implies before.cache.map()[k]
                == before.cache.value(k) by {}
        }
        match wrapped {
            Some(w) => {
                self.persisted.keys.insert(key, w);
                self.unsaved = true;
                assert(self.state().persisted =~= before.state().persisted.insert(key@, w@)) by {
                    let now = self.persisted.keys;
                    let was = before.persisted.keys;
                    assert(now.map() == was.map().insert(key@, w));
                    assert forall|k: Seq<char>|
                        now.contains(k) == was.map().insert(key@, w).dom().contains(k) by {
                        assert(now.map().dom().contains(k) == now.contains(k));
                    }
                    assert forall|k: Seq<char>| now.contains(k) implies now.value(k)
                        == was.map().insert(key@, w)[k] by {
                        assert(now.map()[k] == now.value(k));
                    }
                    assert forall|k: Seq<char>| was.contains(k) implies was.map()[k] == was.value(
                        k,
                    ) by {}
                }
            },
            None => {},
        }
    }

    /// The data key of `scope`, resolved if need be.
    ///
    /// A cached key is returned as it is. Otherwise, if the scope has a wrapped
    /// key, that key is unwrapped, and the answer is what unwrapping gives; if
    /// it has none, a fresh key is drawn and wrapped under the provider's
    /// current key, which can fail through the provider or the random source
    /// alone. Either way the result is cached. A failure leaves the keyring
    /// as it was.
    pub fn dek_for(&mut self, scope: &KeyScope) -> (r: Result<Dek, EvfsError>)
        ensures
            final(self).kms() == old(self).kms(),
            old(self).consistent() ==> final(self).consistent(),
            dek_for_step(
                old(self).state(),
                scope.key(),
                match r {
                    Ok(d) => Ok(d@),
                    Err(e) => Err(e),
                },
                final(self).state(),
            ),
            r is Ok && !old(self).state().cached.contains_key(scope.key()) ==> wraps(
                final(self).kms(),
                final(self).state().persisted[scope.key()],
                r->Ok_0@,
            ),
            r is Ok && old(self).state().lacks(scope.key()) ==> Some(
                final(self).state().persisted[scope.key()].kek_id,
            ) == final(self).kms().current(),
            old(self).state().lacks(scope.key()) && old(self).kms().current() is None ==> r is Err,
            old(self).state().lacks(scope.key()) && r is Err ==> r->Err_0 is Provider || r->Err_0
                == EvfsError::Crypto,
            !old(self).state().cached.contains_key(scope.key()) && old(self).state().persisted.contains_key(
                scope.key(),
            ) ==> unwrap_outcome(
                old(self).kms(),
                old(self).state().persisted[scope.key()],
                match r {
                    Ok(d) => Ok(d@),
                    Err(e) => Err(e),
                },
            ),
    {
        let key = scope.scope_key();
        match self.cache.get(key.as_str()) {
            Some(dek) => {
                return Ok(dek.clone());
            },
            None => {},
        }
        match self.persisted.keys.get(key.as_str()) {
            Some(wrapped) => {
                let dek = unwrap_dek(wrapped, &self.provider)?;
                let out = dek.clone();
                self.remember(key.as_str(), dek, None);
                Ok(out)
            },
            None => {
                let dek = Dek::generate()?;
                let wrapped = wrap_dek(&dek, &self.provider)?;
                let out = dek.clone();
                self.remember(key.as_str(), dek, Some(wrapped));
                Ok(out)
            },
        }
    }

    /// The data key that protects page `page_no`.
    pub fn dek_for_page(&mut self, page_no: u32, page_scope_map: Option<&HashMap<u32, KeyScope>>) -> (r:
        Result<Dek, EvfsError>)
        ensures
            final(self).kms() == old(self).kms(),
            old(self).consistent() ==> final(self).consistent(),
            dek_for_step(
                old(self).state(),
                scope_of_page(
                    page_no,
                    match page_scope_map {
                        Some(m) => Some(m@),
                        None => None,
                    },
                ).key(),
                match r {
                    Ok(d) => Ok(d@),
                    Err(e) => Err(e),
                },
                final(self).state(),
            ),
    {
        let scope = match page_scope_map {
            Some(m) => match m.get(&page_no) {
                Some(s) => s.clone(),
                None => KeyScope::Database,
            },
            None => KeyScope::Database,
        };
        self.dek_for(&scope)
    }

    /// Wraps every cached key anew under the provider's current key, and
    /// replaces the wrapped keys of those scopes. For use after the
    /// key-encryption key was rotated.
    ///
    /// All keys are wrapped before any is replaced: a failure leaves the
    /// keyring as it was. Afterwards the wrapped key of every cached scope
    /// names the provider's current key. Only wrapping a key can fail, with
    /// the provider's error or that of the random source: a keyring without
    /// cached keys is always done, and then only marked unsaved; a provider
    /// without a current key wraps none.
    pub fn rewrap_all(&mut self) -> (r: Result<(), EvfsError>)
        ensures
            final(self).kms() == old(self).kms(),
            (forall|k: Seq<char>| !old(self).state().cached.contains_key(k)) ==> r is Ok,
            r is Err ==> r->Err_0 is Provider || r->Err_0 == EvfsError::Crypto,
            old(self).kms().current() is None ==> (r is Err && r->Err_0 is Provider) || (forall|
                k: Seq<char>,
            | !old(self).state().cached.contains_key(k)),
            r is Ok ==> final(self).consistent(),
            final(self).state().cached == old(self).state().cached,
            final(self).state().sidecar == old(self).state().sidecar,
            r is Err ==> final(self).state() == old(self).state(),
            r is Ok ==> final(self).state().unsaved,
            r is Ok ==> forall|k: Seq<char>| #[trigger]
                old(self).state().cached.contains_key(k) ==> final(self).state().persisted.contains_key(k) && wraps(
                    final(self).kms(),
                    final(self).state().persisted[k],
                    old(self).state().cached[k],
                ),
            r is Ok ==> forall|k: Seq<char>| #[trigger]
                old(self).state().cached.contains_key(k) ==> Some(
                    final(self).state().persisted[k].kek_id,
                ) == final(self).kms().current(),
            r is Ok ==> forall|k: Seq<char>|
                !old(self).state().cached.contains_key(k) ==> (#[trigger] final(self).state().persisted.contains_key(k) == old(self).state().persisted.contains_key(k))
                    && (old(self).state().persisted.contains_key(k) ==> final(self).state().persisted[k] == old(self).state().persisted[k]),
    {
        let ghost before = *self;
        let n = self.cache.len();
        let mut fresh: Vec<WrappedDek> = Vec::new();
        let mut i: usize = 0;
        let ghost first: Seq<char> = if n > 0 {
            self.cache.keys()[0]
        } else {
            Seq::empty()
        };
        proof {
            if n > 0 {
                assert(self.cache.keys().contains(first));
                assert(self.state().cached.contains_key(first));
            }
        }
        while i < n
            invariant
                i <= n,
                n == self.cache.keys().len(),
                self.cache.ordered(),
                *self == before,
                n > 0 ==> before.state().cached.contains_key(first),
                fresh@.len() == i,
                forall|j: int|
                    0 <= j < i ==> wraps(&self.provider, (#[trigger] fresh@[j])@, self.cache.vals()[j]@),
                forall|j: int|
                    0 <= j < i ==> self.provider.current() == Some((#[trigger] fresh@[j])@.kek_id),
                i > 0 ==> self.provider.current() is Some,
            decreases n - i,
        {
            let wrapped = match wrap_dek(self.cache.value_at(i), &self.provider) {
                Ok(w) => w,
                Err(e) => { return Err(e); },
            };
            fresh.push(wrapped);
            i += 1;
        }
        let mut i: usize = 0;
        while i < n
            invariant
                i <= n,
                n == self.cache.keys().len(),
                self.cache.ordered(),
                self.cache == before.cache,
                self.provider == before.provider,
                self.sidecar_path == before.sidecar_path,
                fresh@.len() == n,
                n > 0 ==> self.provider.current() is Some,
                forall|j: int|
                    0 <= j < n ==> wraps(&self.provider, (#[trigger] fresh@[j])@, self.cache.vals()[j]@),
                forall|j: int|
                    0 <= j < n ==> self.provider.current() == Some((#[trigger] fresh@[j])@.kek_id),
                forall|j: int|
                    0 <= j < i ==> self.persisted.keys.map().contains_key(
                        #[trigger] self.cache.keys()[j],
                    ) && self.persisted.keys.map()[self.cache.keys()[j]]@ == fresh@[j]@,
                forall|k: Seq<char>|
                    !self.cache.keys().take(i as int).contains(k) ==> (
                    #[trigger] self.persisted.keys.map().contains_key(k)
                        == before.persisted.keys.map().contains_key(k)) && (
                    before.persisted.keys.map().contains_key(k) ==> self.persisted.keys.map()[k]
                        == before.persisted.keys.map()[k]),
            decreases n - i,
        {
            let ghost keys = self.cache.keys();
            let ghost prev = self.persisted.keys.map();
            let w = fresh[i].clone();
            self.persisted.keys.insert(self.cache.key_at(i), w);
            proof {
                let now = self.persisted.keys.map();
                assert(now == prev.insert(keys[i as int], w));
                assert(keys.take(i as int + 1) =~= keys.take(i as int).push(keys[i as int]));
                assert forall|j: int| 0 <= j < i + 1 implies now.contains_key(#[trigger] keys[j])
                    && now[keys[j]]@ == fresh@[j]@ by {
                    if j < i {
                        assert(keys[j] != keys[i as int]);
                    }
                }
                assert forall|k: Seq<char>| !keys.take(i as int + 1).contains(k) implies (
                #[trigger] now.contains_key(k) == before.persisted.keys.map().contains_key(k)) && (
                before.persisted.keys.map().contains_key(k) ==> now[k]
                    == before.persisted.keys.map()[k]) by {
                    assert(keys.take(i as int + 1)[i as int] == keys[i as int]);
                    assert(k != keys[i as int]);
                    if keys.take(i as int).contains(k) {
                        let j = keys.take(i as int).index_of(k);
                        assert(keys.take(i as int + 1)[j] == k);
                    }
                }
            }
            i += 1;
        }
        self.unsaved = true;
        proof {
            let keys = self.cache.keys();
            assert(keys.take(n as int) =~= keys);
            let now = self.persisted.keys;
            let was = before.persisted.keys;
            assert forall|k: Seq<char>| #[trigger]
                before.state().cached.contains_key(k) implies self.state().persisted.contains_key(k)
                && wraps(self.kms(), self.state().persisted[k], before.state().cached[k]) by {
                let j = keys.index_of(k);
                assert(keys[j] == k);
                assert(now.map().contains_key(keys[j]));
                assert(now.map()[k] == now.value(k));
            }
            assert forall|k: Seq<char>| #[trigger]
                before.state().cached.contains_key(k) implies Some(
                self.state().persisted[k].kek_id,
            ) == self.kms().current() by {
                let j = keys.index_of(k);
                assert(keys[j] == k);
                assert(now.map().contains_key(keys[j]));
                assert(now.map()[k]@ == fresh@[j]@);
            }
            assert forall|k: Seq<char>| !before.state().cached.contains_key(k) implies (
            #[trigger] self.state().persisted.contains_key(k) == before.state().persisted.contains_key(
                k,
            )) && (before.state().persisted.contains_key(k) ==> self.state().persisted[k]
                == before.state().persisted[k]) by {
                assert(!keys.contains(k));
                assert(now.map().contains_key(k) == was.map().contains_key(k));
                if was.contains(k) {
                    assert(now.map()[k] == was.map()[k]);
                    assert(now.map()[k] == now.value(k));
                    assert(was.map()[k] == was.value(k));
                }
            }
        }
        Ok(())
    }

    /// The provider, to be changed in place: a provider that keeps keys
    /// fetched from elsewhere is handed them through this.
    pub fn provider_mut(&mut self) -> (r: &mut P)
        ensures
            *r == *old(self).kms(),
            *final(self).kms() == *final(r),
            final(self).state() == old(self).state(),
    {
        &mut self.provider
    }

    /// The provider.
    pub fn provider(&self) -> (r: &P)
        ensures
            r == self.kms(),
    {
        &self.provider
    }
}

} // verus!
