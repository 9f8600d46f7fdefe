//! Data-encryption keys, their wrapped form, and the scopes they protect.

use vstd::prelude::*;
use zeroize::Zeroize;

use crate::crypto::aead::{random_bytes, KEY_LEN};
use crate::error::EvfsError;

verus! {

/// A 256-bit data-encryption key. Its bytes are cleared when it is dropped and
/// never appear in its debug form.
pub struct Dek {
    bytes: [u8; 32],
}

/// A data-encryption key sealed under a key-encryption key: safe to persist.
#[derive(Debug)]
pub struct WrappedDek {
    pub ciphertext: Vec<u8>,
    pub nonce: [u8; 12],
    /// Which key-encryption key sealed this key.
    pub kek_id: KekId,
}

/// Opaque identifier of a key-encryption key.
#[derive(Debug)]
pub struct KekId(pub String);

/// What a data-encryption key protects.
#[derive(Debug)]
pub enum KeyScope {
    /// The whole database.
    Database,
    /// One table, by name.
    Table(String),
    /// One column of one table.
    Column { table: String, column: String },
}

impl View for Dek {
    type V = Seq<u8>;

    closed spec fn view(&self) -> Seq<u8> {
        self.bytes@
    }
}

impl View for KekId {
    type V = Seq<char>;

    open spec fn view(&self) -> Seq<char> {
        self.0@
    }
}

/// The mathematical content of a wrapped key.
pub struct WrappedDekView {
    pub ciphertext: Seq<u8>,
    pub nonce: Seq<u8>,
    pub kek_id: Seq<char>,
}

impl View for WrappedDek {
    type V = WrappedDekView;

    open spec fn view(&self) -> WrappedDekView {
        WrappedDekView { ciphertext: self.ciphertext@, nonce: self.nonce@, kek_id: self.kek_id@ }
    }
}

/// Calls `Zeroize::zeroize` on a key's bytes.
///
/// Trusted: afterwards every byte is zero.
#[verifier::external_body]
fn wipe(bytes: &mut [u8; 32])
    ensures
        forall|i: int| 0 <= i < 32 ==> final(bytes)@[i] == 0,
    opens_invariants none
    no_unwind
{
    bytes.zeroize();
}

impl Dek {
    /// A fresh key of 32 bytes from the system's random source.
    ///
    /// Fails with `Crypto` when the random source does.
    pub fn generate() -> (r: Result<Dek, EvfsError>)
        ensures
            r is Err ==> r == Err::<Dek, EvfsError>(EvfsError::Crypto),
    {
        match random_bytes(KEY_LEN) {
            Some(v) => match Dek::from_slice(v.as_slice()) {
                Some(dek) => Ok(dek),
                None => Err(EvfsError::Crypto),
            },
            None => Err(EvfsError::Crypto),
        }
    }

    /// The key with these bytes, if they are 32.
    pub fn from_slice(bytes: &[u8]) -> (r: Option<Dek>)
        ensures
            bytes@.len() == KEY_LEN ==> r is Some && r->0@ == bytes@,
            bytes@.len() != KEY_LEN ==> r is None,
    {
        if bytes.len() != KEY_LEN {
            return None;
        }
        let mut key = [0u8; 32];
        let mut i: usize = 0;
        while i < 32
            invariant
                i <= 32,
                bytes@.len() == 32,
                forall|j: int| 0 <= j < i ==> key@[j] == bytes@[j],
            decreases 32 - i,
        {
            key[i] = bytes[i];
            i += 1;
        }
        assert(key@ =~= bytes@);
        Some(Dek { bytes: key })
    }

    /// A key is 32 bytes long.
    pub proof fn lemma_len(&self)
        ensures
            self@.len() == KEY_LEN,
    {
    }

    /// The key with exactly these bytes.
    pub fn from_bytes(bytes: [u8; 32]) -> (r: Dek)
        ensures
            r@ == bytes@,
    {
        Dek { bytes }
    }

    /// The key's bytes.
    pub fn as_bytes(&self) -> (r: &[u8; 32])
        ensures
            r@ == self@,
            r@.len() == KEY_LEN,
    {
        &self.bytes
    }

    /// Whether two keys hold the same bytes. Every byte pair is visited, so the
    /// time taken does not depend on where the keys first differ.
    pub fn ct_eq(&self, other: &Dek) -> (r: bool)
        ensures
            r == (self@ == other@),
    {
        let mut acc: u8 = 0;
        let mut i: usize = 0;
        assert(self.bytes@.take(0) =~= other.bytes@.take(0));
        while i < 32
            invariant
                i <= 32,
                acc == 0 <==> self.bytes@.take(i as int) == other.bytes@.take(i as int),
            decreases 32 - i,
        {
            let a: u8 = self.bytes[i];
            let b: u8 = other.bytes[i];
            let prev: u8 = acc;
            acc = acc | (a ^ b);
            proof {
                assert((prev | (a ^ b)) == 0 <==> (prev == 0 && a == b)) by (bit_vector);
                let s = self.bytes@;
                let o = other.bytes@;
                assert(s.take(i as int + 1).drop_last() == s.take(i as int));
                assert(o.take(i as int + 1).drop_last() == o.take(i as int));
                assert(s.take(i as int + 1).last() == a);
                assert(o.take(i as int + 1).last() == b);
                if prev == 0 && a == b {
                    assert(s.take(i as int + 1) =~= s.take(i as int).push(a));
                    assert(o.take(i as int + 1) =~= o.take(i as int).push(b));
                }
            }
            i += 1;
        }
        proof {
            assert(self.bytes@.take(32) == self.bytes@);
            assert(other.bytes@.take(32) == other.bytes@);
        }
        acc == 0
    }

    /// What a log may show of a key: never its bytes.
    pub fn debug_text(&self) -> (r: String)
        ensures
            r@ == "Dek(***)"@,
    {
        String::from_str("Dek(***)")
    }

    /// Overwrites the key's bytes with zeros.
    pub fn clear(&mut self)
        ensures
            final(self)@ == Seq::new(32, |i: int| 0u8),
    {
        wipe(&mut self.bytes);
        assert(self.bytes@ =~= Seq::new(32, |i: int| 0u8));
    }
}

impl Drop for Dek {
    fn drop(&mut self)
        opens_invariants none
        no_unwind
    {
        wipe(&mut self.bytes);
    }
}

impl Clone for Dek {
    fn clone(&self) -> (r: Dek)
        ensures
            r@ == self@,
    {
        Dek { bytes: self.bytes }
    }
}

impl Clone for KekId {
    fn clone(&self) -> (r: KekId)
        ensures
            r@ == self@,
    {
        KekId(self.0.clone())
    }
}

impl Clone for WrappedDek {
    fn clone(&self) -> (r: WrappedDek)
        ensures
            r@ == self@,
    {
        WrappedDek {
            ciphertext: self.ciphertext.clone(),
            nonce: self.nonce,
            kek_id: self.kek_id.clone(),
        }
    }
}

impl KeyScope {
    /// The text that names this scope in a keyring: `database`, `table:` and
    /// the table's name, or `column:`, the table's name, a dot and the column's.
    pub open spec fn key(&self) -> Seq<char> {
        match self {
            KeyScope::Database => "database"@,
            KeyScope::Table(t) => "table:"@ + t@,
            KeyScope::Column { table, column } => "column:"@ + table@ + "."@ + column@,
        }
    }

    /// The scope's keyring name, as text.
    pub fn scope_key(&self) -> (r: String)
        ensures
            r@ == self.key(),
    {
        match self {
            KeyScope::Database => String::from_str("database"),
            KeyScope::Table(t) => {
                let mut s = String::from_str("table:");
                s.append(t.as_str());
                s
            },
            KeyScope::Column { table, column } => {
                let mut s = String::from_str("column:");
                s.append(table.as_str());
                s.append(".");
                s.append(column.as_str());
                s
            },
        }
    }
}

impl Clone for KeyScope {
    fn clone(&self) -> (r: KeyScope)
        ensures
            r.key() == self.key(),
            r == *self,
    {
        match self {
            KeyScope::Database => KeyScope::Database,
            KeyScope::Table(t) => KeyScope::Table(t.clone()),
            KeyScope::Column { table, column } => KeyScope::Column {
                table: table.clone(),
                column: column.clone(),
            },
        }
    }
}

} // verus!
