//! The key envelope: a data key sealed under a key-encryption key.

use vstd::prelude::*;

use crate::crypto::aead::{
    aead_open, aead_seal, opened, opens, random_bytes, seal, KEY_LEN, MAX_PLAINTEXT, NONCE_LEN,
    TAG_LEN,
};
use crate::crypto::keys::{Dek, KekId, WrappedDek, WrappedDekView};
use crate::error::{EvfsError, KmsError};
use crate::kms::KmsProvider;

verus! {

/// Whether `wrapped` is the 32-byte key `dek` sealed under `kek` with the
/// nonce it carries.
pub open spec fn seals(wrapped: WrappedDekView, kek: Seq<u8>, dek: Seq<u8>) -> bool {
    &&& kek.len() == KEY_LEN
    &&& dek.len() == KEY_LEN
    &&& wrapped.nonce.len() == NONCE_LEN
    &&& wrapped.ciphertext.len() == KEY_LEN + TAG_LEN
    &&& wrapped.ciphertext == seal(kek, wrapped.nonce, dek)
}

/// Whether `wrapped` is `dek` sealed under the key that `provider` holds for
/// the id it carries.
pub open spec fn wraps<P: KmsProvider>(provider: &P, wrapped: WrappedDekView, dek: Seq<u8>) -> bool {
    provider.kek(wrapped.kek_id) is Some && seals(wrapped, provider.kek(wrapped.kek_id)->0, dek)
}

fn nonce_from(v: &Vec<u8>) -> (n: [u8; 12])
    requires
        v@.len() == NONCE_LEN,
    ensures
        n@ == v@,
{
    let mut n = [0u8; 12];
    let mut i: usize = 0;
    while i < 12
        invariant
            i <= 12,
            v@.len() == 12,
            forall|j: int| 0 <= j < i ==> n@[j] == v@[j],
        decreases 12 - i,
    {
        n[i] = v[i];
        i += 1;
    }
    assert(n@ =~= v@);
    n
}

/// Seals `dek` under the key `kek`, named `kek_id`, with `nonce`.
///
/// A key-encryption key that is not 32 bytes long is refused with `KeyFormat`;
/// any other is used, and the result is exactly the sealed key.
pub fn seal_dek(dek: &Dek, kek_id: KekId, kek: &Vec<u8>, nonce: [u8; 12]) -> (r: Result<
    WrappedDek,
    EvfsError,
>)
    ensures
        kek@.len() != KEY_LEN ==> r == Err::<WrappedDek, EvfsError>(
            EvfsError::Provider(KmsError::KeyFormat),
        ),
        kek@.len() == KEY_LEN ==> r is Ok && r->Ok_0@ == (WrappedDekView {
            ciphertext: seal(kek@, nonce@, dek@),
            nonce: nonce@,
            kek_id: kek_id@,
        }) && r->Ok_0@.ciphertext.len() == KEY_LEN + TAG_LEN,
{
    if kek.len() != KEY_LEN {
        return Err(EvfsError::Provider(KmsError::KeyFormat));
    }
    match aead_seal(kek.as_slice(), nonce.as_slice(), dek.as_bytes().as_slice()) {
        Some(ciphertext) => Ok(WrappedDek { ciphertext, nonce, kek_id }),
        None => Err(EvfsError::Crypto),
    }
}

/// What opening a wrapped key with `kek` gives. The answers, in the order
/// they are tried: `KeyFormat` for a key that is not 32 bytes long;
/// `AuthFailure` unless the ciphertext is the sealed form of some plaintext
/// under this key and the wrapped key's nonce; `Crypto` if that plaintext is
/// not 32 bytes long; otherwise the plaintext.
pub open spec fn open_result(wrapped: WrappedDekView, kek: Seq<u8>) -> Result<Seq<u8>, EvfsError> {
    if kek.len() != KEY_LEN {
        Err(EvfsError::Provider(KmsError::KeyFormat))
    } else if wrapped.ciphertext.len() > MAX_PLAINTEXT + TAG_LEN || !opens(
        kek,
        wrapped.nonce,
        wrapped.ciphertext,
    ) {
        Err(EvfsError::AuthFailure)
    } else if opened(kek, wrapped.nonce, wrapped.ciphertext).len() != KEY_LEN {
        Err(EvfsError::Crypto)
    } else {
        Ok(opened(kek, wrapped.nonce, wrapped.ciphertext))
    }
}

/// A key wrapped under one key-encryption key opens under another only if
/// its ciphertext is a sealed form under that one as well. Wherever it is
/// not, the answer is `AuthFailure`.
pub proof fn lemma_wrapped_key_is_bound(wrapped: WrappedDekView, kek: Seq<u8>, dek: Seq<u8>, other: Seq<u8>)
    requires
        seals(wrapped, kek, dek),
        other.len() == KEY_LEN,
        !opens(other, wrapped.nonce, wrapped.ciphertext),
    ensures
        open_result(wrapped, other) == Err::<Seq<u8>, EvfsError>(EvfsError::AuthFailure),
{
}

/// Opens `wrapped` with the key `kek`.
///
/// A key that `seal_dek` sealed under `kek` comes back as it was.
pub fn open_dek(wrapped: &WrappedDek, kek: &Vec<u8>) -> (r: Result<Dek, EvfsError>)
    ensures
        match open_result(wrapped@, kek@) {
            Ok(d) => r is Ok && r->Ok_0@ == d,
            Err(e) => r is Err && r->Err_0 == e,
        },
        r is Ok ==> seals(wrapped@, kek@, r->Ok_0@),
        forall|d: Seq<u8>| #[trigger] seals(wrapped@, kek@, d) ==> r is Ok && r->Ok_0@ == d,
{
    if kek.len() != KEY_LEN {
        return Err(EvfsError::Provider(KmsError::KeyFormat));
    }
    if wrapped.ciphertext.len() as u64 > MAX_PLAINTEXT + TAG_LEN as u64 {
        return Err(EvfsError::AuthFailure);
    }
    match aead_open(kek.as_slice(), wrapped.nonce.as_slice(), wrapped.ciphertext.as_slice()) {
        None => Err(EvfsError::AuthFailure),
        Some(plain) => {
            match Dek::from_slice(plain.as_slice()) {
                Some(dek) => {
                    proof {
                        dek.lemma_len();
                    }
                    Ok(dek)
                },
                None => Err(EvfsError::Crypto),
            }
        },
    }
}

/// Wraps `dek` under the provider's current key, with a fresh random nonce.
///
/// What comes back on success is `dek` sealed under the provider's current
/// key, and it names that key. A provider without a current key wraps
/// nothing. The provider's own failure is passed on as `Provider`; a failing random
/// source gives `Crypto`.
pub fn wrap_dek<P: KmsProvider>(dek: &Dek, provider: &P) -> (r: Result<WrappedDek, EvfsError>)
    ensures
        r is Ok ==> wraps(provider, r->Ok_0@, dek@),
        r is Ok ==> provider.current() == Some(r->Ok_0@.kek_id),
        r is Err ==> r->Err_0 is Provider || r->Err_0 == EvfsError::Crypto,
        provider.current() is None ==> r is Err && r->Err_0 is Provider,
{
    let (kek_id, kek) = match provider.get_kek() {
        Ok(pair) => pair,
        Err(e) => { return Err(EvfsError::Provider(e)); },
    };
    let nonce = match random_bytes(NONCE_LEN) {
        Some(v) => nonce_from(&v),
        None => { return Err(EvfsError::Crypto); },
    };
    proof {
        dek.lemma_len();
    }
    seal_dek(dek, kek_id, &kek, nonce)
}

/// What unwrapping `wrapped` may answer: the provider's own failure, or else
/// exactly what opening it with the key the provider holds for its id gives.
pub open spec fn unwrap_outcome<P: KmsProvider>(
    provider: &P,
    wrapped: WrappedDekView,
    r: Result<Seq<u8>, EvfsError>,
) -> bool {
    (r is Err && r->Err_0 is Provider) || (provider.kek(wrapped.kek_id) is Some && r == open_result(
        wrapped,
        provider.kek(wrapped.kek_id)->0,
    ))
}

/// A provider that holds another key under the wrapped key's id does not
/// unwrap it: unless the ciphertext happens to be a sealed form under that
/// key as well, the answer is `AuthFailure`, or the provider's own failure.
pub proof fn lemma_other_key_refuses<P: KmsProvider>(
    provider: &P,
    wrapped: WrappedDekView,
    r: Result<Seq<u8>, EvfsError>,
)
    requires
        unwrap_outcome(provider, wrapped, r),
        provider.kek(wrapped.kek_id) is Some,
        !opens(provider.kek(wrapped.kek_id)->0, wrapped.nonce, wrapped.ciphertext),
    ensures
        r is Err,
        r->Err_0 is Provider || r->Err_0 == EvfsError::AuthFailure,
{
}

/// Unwraps `wrapped` with the key the provider holds for its id.
///
/// The provider's own failure is passed on as `Provider`; with the key in
/// hand the answer is that of `open_dek`. So a key wrapped under this provider
/// comes back with the bytes it had, unless the provider itself fails.
pub fn unwrap_dek<P: KmsProvider>(wrapped: &WrappedDek, provider: &P) -> (r: Result<
    Dek,
    EvfsError,
>)
    ensures
        r is Ok ==> wraps(provider, wrapped@, r->Ok_0@),
        forall|d: Seq<u8>| #[trigger]
            wraps(provider, wrapped@, d) ==> (r is Ok && r->Ok_0@ == d) || (r is Err
                && r->Err_0 is Provider),
        unwrap_outcome(
            provider,
            wrapped@,
            match r {
                Ok(d) => Ok(d@),
                Err(e) => Err(e),
            },
        ),
{
    let kek = match provider.get_kek_by_id(&wrapped.kek_id) {
        Ok(bytes) => bytes,
        Err(e) => { return Err(EvfsError::Provider(e)); },
    };
    open_dek(wrapped, &kek)
}

} // verus!
