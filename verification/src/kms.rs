//! Providers of key-encryption keys.

pub mod cloud;
pub mod local;

use vstd::prelude::*;

use crate::crypto::keys::KekId;
use crate::error::KmsError;
use crate::kms::cloud::CloudKmsProvider;
use crate::kms::local::DeviceKeyProvider;

verus! {

/// A source of key-encryption keys.
///
/// `kek` is the provider's key table: the key it stands for under each id. A
/// call may fail for reasons of its own, but a key it hands out is the one in
/// the table.
pub trait KmsProvider {
    /// The 32-byte key held under `id`, if the provider knows that id.
    spec fn kek(&self, id: Seq<char>) -> Option<Seq<u8>>;

    /// The id of the current key, the one new data keys are wrapped under, if
    /// the provider has a current key.
    spec fn current(&self) -> Option<Seq<char>>;

    /// The current key and its id: the one new data keys are wrapped under.
    fn get_kek(&self) -> (r: Result<(KekId, Vec<u8>), KmsError>)
        ensures
            r is Ok ==> self.current() == Some(r->Ok_0.0@),
            r is Ok ==> self.kek(r->Ok_0.0@) == Some(r->Ok_0.1@),
    ;

    /// The key with this id: needed to unwrap data keys wrapped under an older
    /// key.
    fn get_kek_by_id(&self, id: &KekId) -> (r: Result<Vec<u8>, KmsError>)
        ensures
            r is Ok ==> self.kek(id@) == Some(r->Ok_0@),
    ;

    /// Asks the provider to wrap a blob itself, for providers whose key never
    /// leaves a hardware boundary. Providers without that ability answer
    /// `Unsupported`.
    fn wrap_blob(&self, plaintext: &[u8]) -> (r: Result<Vec<u8>, KmsError>);

    /// Asks the provider to unwrap a blob itself.
    fn unwrap_blob(&self, ciphertext: &[u8]) -> (r: Result<Vec<u8>, KmsError>);
}

/// Either of the providers that this library has.
pub enum Provider {
    /// A key on this device.
    Device(DeviceKeyProvider),
    /// A key with a remote service.
    Cloud(CloudKmsProvider),
}

impl KmsProvider for Provider {
    open spec fn kek(&self, id: Seq<char>) -> Option<Seq<u8>> {
        match self {
            Provider::Device(p) => p.kek(id),
            Provider::Cloud(p) => p.kek(id),
        }
    }

    open spec fn current(&self) -> Option<Seq<char>> {
        match self {
            Provider::Device(p) => p.current(),
            Provider::Cloud(p) => p.current(),
        }
    }

    /// The current key of whichever provider this is: a device's one key
    /// under its own id, or the reason it has none; a service's data key in
    /// use, or `ProviderIO` while none was fetched.
    fn get_kek(&self) -> (r: Result<(KekId, Vec<u8>), KmsError>)
        ensures
            match self {
                Provider::Device(p) => match r {
                    Ok(pair) => pair.0@ == p.id() && p.loaded() == Ok::<Seq<u8>, KmsError>(
                        pair.1@,
                    ),
                    Err(e) => p.loaded() == Err::<Seq<u8>, KmsError>(e),
                },
                Provider::Cloud(p) => match p.current_id() {
                    Some(id) => r is Ok && r->Ok_0.0@ == id && p.kek(id) == Some(r->Ok_0.1@),
                    None => r == Err::<(KekId, Vec<u8>), KmsError>(KmsError::ProviderIO),
                },
            },
    {
        match self {
            Provider::Device(p) => p.get_kek(),
            Provider::Cloud(p) => p.get_kek(),
        }
    }

    /// The key with this id of whichever provider this is: a device's key if
    /// the id is its own, or the reason it has none; a service's key if it is
    /// at hand; `UnknownKekId` for every other id.
    fn get_kek_by_id(&self, id: &KekId) -> (r: Result<Vec<u8>, KmsError>)
        ensures
            match self {
                Provider::Device(p) => if id@ == p.id() {
                    match r {
                        Ok(bytes) => p.loaded() == Ok::<Seq<u8>, KmsError>(bytes@),
                        Err(e) => p.loaded() == Err::<Seq<u8>, KmsError>(e),
                    }
                } else {
                    r == Err::<Vec<u8>, KmsError>(KmsError::UnknownKekId)
                },
                Provider::Cloud(p) => match p.kek(id@) {
                    Some(key) => r is Ok && r->Ok_0@ == key,
                    None => r == Err::<Vec<u8>, KmsError>(KmsError::UnknownKekId),
                },
            },
    {
        match self {
            Provider::Device(p) => p.get_kek_by_id(id),
            Provider::Cloud(p) => p.get_kek_by_id(id),
        }
    }

    /// Neither provider wraps a blob here: a device key never does, and a
    /// service does so over the network.
    fn wrap_blob(&self, plaintext: &[u8]) -> (r: Result<Vec<u8>, KmsError>)
        ensures
            r == Err::<Vec<u8>, KmsError>(KmsError::Unsupported),
    {
        match self {
            Provider::Device(p) => p.wrap_blob(plaintext),
            Provider::Cloud(p) => p.wrap_blob(plaintext),
        }
    }

    /// Neither provider unwraps a blob here.
    fn unwrap_blob(&self, ciphertext: &[u8]) -> (r: Result<Vec<u8>, KmsError>)
        ensures
            r == Err::<Vec<u8>, KmsError>(KmsError::Unsupported),
    {
        match self {
            Provider::Device(p) => p.unwrap_blob(ciphertext),
            Provider::Cloud(p) => p.unwrap_blob(ciphertext),
        }
    }
}

} // verus!
