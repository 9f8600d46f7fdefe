//! AES-256-GCM and the system's random source, as the rest of the library sees
//! them.

use vstd::prelude::*;

use aes_gcm::aead::Aead;
use aes_gcm::{Aes256Gcm, KeyInit, Nonce};

verus! {

/// Bytes of an AES-256 key.
pub const KEY_LEN: usize = 32;

/// Bytes of an AES-GCM nonce.
pub const NONCE_LEN: usize = 12;

/// Bytes of an AES-GCM authentication tag.
pub const TAG_LEN: usize = 16;

/// The longest plaintext, in bytes, that AES-GCM seals in one message.
pub const MAX_PLAINTEXT: u64 = 0x10_0000_0000;

/// AES-256-GCM with no associated data: the ciphertext of `plaintext` under
/// `key` and `nonce`, followed by its 16-byte tag.
pub uninterp spec fn seal(key: Seq<u8>, nonce: Seq<u8>, plaintext: Seq<u8>) -> Seq<u8>;

/// Whether `sealed` is what `seal` gives for some plaintext the cipher accepts.
pub open spec fn opens(key: Seq<u8>, nonce: Seq<u8>, sealed: Seq<u8>) -> bool {
    exists|p: Seq<u8>| p.len() <= MAX_PLAINTEXT && #[trigger] seal(key, nonce, p) == sealed
}

/// The plaintext whose sealed form under `key` and `nonce` is `sealed`, where
/// there is one.
pub open spec fn opened(key: Seq<u8>, nonce: Seq<u8>, sealed: Seq<u8>) -> Seq<u8> {
    choose|p: Seq<u8>| p.len() <= MAX_PLAINTEXT && #[trigger] seal(key, nonce, p) == sealed
}

/// Calls `Aes256Gcm::encrypt` with an empty associated-data string.
///
/// Trusted: the result is AES-256-GCM's output, which is as long as the
/// plaintext plus a 16-byte tag, and the cipher refuses nothing shorter than
/// its plaintext limit.
#[verifier::external_body]
pub(crate) fn aead_seal(key: &[u8], nonce: &[u8], plaintext: &[u8]) -> (r: Option<Vec<u8>>)
    requires
        key@.len() == KEY_LEN,
        nonce@.len() == NONCE_LEN,
        plaintext@.len() <= MAX_PLAINTEXT,
    ensures
        r is Some,
        r->0@ == seal(key@, nonce@, plaintext@),
        r->0@.len() == plaintext@.len() + TAG_LEN,
{
    let cipher = Aes256Gcm::new_from_slice(key).ok()?;
    cipher.encrypt(Nonce::from_slice(nonce), plaintext).ok()
}

/// Calls `Aes256Gcm::decrypt` with an empty associated-data string.
///
/// Trusted: decryption succeeds exactly on the sealed form of some plaintext
/// under this key and nonce, and then returns that plaintext, which is the only
/// one with that sealed form.
#[verifier::external_body]
pub(crate) fn aead_open(key: &[u8], nonce: &[u8], sealed: &[u8]) -> (r: Option<Vec<u8>>)
    requires
        key@.len() == KEY_LEN,
        nonce@.len() == NONCE_LEN,
        sealed@.len() <= MAX_PLAINTEXT + TAG_LEN,
    ensures
        r is Some <==> opens(key@, nonce@, sealed@),
        r is Some ==> r->0@.len() + TAG_LEN == sealed@.len(),
        r is Some ==> seal(key@, nonce@, r->0@) == sealed@,
        forall|p: Seq<u8>|
            p.len() <= MAX_PLAINTEXT && #[trigger] seal(key@, nonce@, p) == sealed@ ==> r == Some(
                r->0,
            ) && r->0@ == p,
{
    let cipher = Aes256Gcm::new_from_slice(key).ok()?;
    cipher.decrypt(Nonce::from_slice(nonce), sealed).ok()
}

/// Calls `getrandom::getrandom` on a buffer of `n` bytes.
///
/// Trusted: on success the buffer, `n` bytes long, is returned; nothing is
/// claimed of what it holds.
#[verifier::external_body]
pub(crate) fn random_bytes(n: usize) -> (r: Option<Vec<u8>>)
    ensures
        r is Some ==> r->0@.len() == n,
{
    let mut buf = vec![0u8; n];
    match getrandom::getrandom(&mut buf) {
        Ok(()) => Some(buf),
        Err(_) => None,
    }
}

} // verus!
