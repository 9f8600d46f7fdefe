//! A provider on this device: its key comes from a 32-byte keyfile, or is
//! derived from a passphrase with Argon2id.

use vstd::prelude::*;
use vstd::string::StringSliceAdditionalSpecFns;

use argon2::Argon2;

use crate::crypto::aead::KEY_LEN;
use crate::crypto::keys::KekId;
use crate::error::KmsError;
use crate::kms::KmsProvider;

verus! {

/// Argon2id, version 0x13, with 19 MiB of memory, two passes and one lane:
/// the 32-byte hash of a password under a salt, where the parameters allow one.
pub uninterp spec fn argon2id(password: Seq<u8>, salt: Seq<u8>) -> Option<Seq<u8>>;

/// Calls `Argon2::default().hash_password_into` with a 32-byte output.
///
/// Trusted: the result is Argon2id's hash under the crate's default
/// parameters, 32 bytes long, or nothing where Argon2 refuses its input.
#[verifier::external_body]
fn argon2id_hash(password: &[u8], salt: &[u8]) -> (r: Option<Vec<u8>>)
    ensures
        r is Some ==> argon2id(password@, salt@) == Some(r->0@),
        r is None ==> argon2id(password@, salt@) is None,
        r is Some ==> r->0@.len() == KEY_LEN,
{
    let mut out = [0u8; 32];
    match Argon2::default().hash_password_into(password, salt, &mut out) {
        Ok(()) => Some(out.to_vec()),
        Err(_) => None,
    }
}

/// The salt under which every passphrase is hashed.
pub open spec fn default_salt() -> Seq<u8> {
    "evfs-default-slt".spec_bytes()
}

/// The id of every passphrase-derived key.
pub open spec fn passphrase_id() -> Seq<char> {
    "device:passphrase"@
}

/// The id of the key in the keyfile at `path`.
pub open spec fn keyfile_id(path: Seq<char>) -> Seq<char> {
    "device:file:"@ + path
}

/// The key that a keyfile with these contents gives: the contents themselves
/// if they are 32 bytes, `KeyFormat` if they are not, `ProviderIO` if the file
/// could not be read.
pub open spec fn keyfile_kek(contents: Option<Seq<u8>>) -> Result<Seq<u8>, KmsError> {
    match contents {
        None => Err(KmsError::ProviderIO),
        Some(bytes) => if bytes.len() == KEY_LEN {
            Ok(bytes)
        } else {
            Err(KmsError::KeyFormat)
        },
    }
}

/// The key that a passphrase gives: its Argon2id hash under the fixed salt.
pub open spec fn passphrase_kek(passphrase: Seq<char>) -> Result<Seq<u8>, KmsError> {
    match argon2id(vstd::utf8::encode_utf8(passphrase), default_salt()) {
        Some(key) => Ok(key),
        None => Err(KmsError::AuthFailure),
    }
}

/// A provider with one key, loaded or derived once when it is made.
pub struct DeviceKeyProvider {
    id: KekId,
    loaded: Result<Vec<u8>, KmsError>,
}

impl DeviceKeyProvider {
    /// The id under which this provider's key is known.
    pub closed spec fn id(&self) -> Seq<char> {
        self.id@
    }

    /// The provider's key, or why it has none.
    pub closed spec fn loaded(&self) -> Result<Seq<u8>, KmsError> {
        match self.loaded {
            Ok(bytes) => Ok(bytes@),
            Err(e) => Err(e),
        }
    }

    /// A provider for the keyfile at `path`, given what reading that file
    /// returned (`None` if it could not be read).
    pub fn from_keyfile(path: &str, contents: Option<Vec<u8>>) -> (r: DeviceKeyProvider)
        ensures
            r.id() == keyfile_id(path@),
            r.loaded() == keyfile_kek(
                match contents {
                    Some(bytes) => Some(bytes@),
                    None => None,
                },
            ),
    {
        let mut id = String::from_str("device:file:");
        id.append(path);
        let loaded = match contents {
            None => Err(KmsError::ProviderIO),
            Some(bytes) => if bytes.len() == KEY_LEN {
                Ok(bytes)
            } else {
                Err(KmsError::KeyFormat)
            },
        };
        DeviceKeyProvider { id: KekId(id), loaded }
    }

    /// A provider whose key is derived from `passphrase`.
    pub fn from_passphrase(passphrase: &str) -> (r: DeviceKeyProvider)
        ensures
            r.id() == passphrase_id(),
            r.loaded() == passphrase_kek(passphrase@),
    {
        let loaded = match argon2id_hash(passphrase.as_bytes(), "evfs-default-slt".as_bytes()) {
            Some(key) => Ok(key),
            None => Err(KmsError::AuthFailure),
        };
        DeviceKeyProvider { id: KekId(String::from_str("device:passphrase")), loaded }
    }

    fn load_kek(&self) -> (r: Result<Vec<u8>, KmsError>)
        ensures
            match r {
                Ok(bytes) => self.loaded() == Ok::<Seq<u8>, KmsError>(bytes@),
                Err(e) => self.loaded() == Err::<Seq<u8>, KmsError>(e),
            },
    {
        match &self.loaded {
            Ok(bytes) => Ok(bytes.clone()),
            Err(e) => Err(*e),
        }
    }
}

impl KmsProvider for DeviceKeyProvider {
    open spec fn kek(&self, id: Seq<char>) -> Option<Seq<u8>> {
        if id == self.id() && self.loaded() is Ok {
            Some(self.loaded()->Ok_0)
        } else {
            None
        }
    }

    /// A device has one key, and that is its current key wherever it can be
    /// had at all.
    open spec fn current(&self) -> Option<Seq<char>> {
        if self.loaded() is Ok {
            Some(self.id())
        } else {
            None
        }
    }

    /// The provider's one key under its own id, or the reason it has none.
    fn get_kek(&self) -> (r: Result<(KekId, Vec<u8>), KmsError>)
        ensures
            match r {
                Ok(pair) => pair.0@ == self.id() && self.loaded() == Ok::<Seq<u8>, KmsError>(
                    pair.1@,
                ),
                Err(e) => self.loaded() == Err::<Seq<u8>, KmsError>(e),
            },
    {
        match self.load_kek() {
            Ok(bytes) => Ok((self.id.clone(), bytes)),
            Err(e) => Err(e),
        }
    }

    /// The provider's key if `id` is its own; `UnknownKekId` for any other id.
    fn get_kek_by_id(&self, id: &KekId) -> (r: Result<Vec<u8>, KmsError>)
        ensures
            id@ != self.id() ==> r == Err::<Vec<u8>, KmsError>(KmsError::UnknownKekId),
            id@ == self.id() ==> match r {
                Ok(bytes) => self.loaded() == Ok::<Seq<u8>, KmsError>(bytes@),
                Err(e) => self.loaded() == Err::<Seq<u8>, KmsError>(e),
            },
    {
        if id.0 != self.id.0 {
            return Err(KmsError::UnknownKekId);
        }
        self.load_kek()
    }

    /// A device key never wraps a blob itself.
    fn wrap_blob(&self, plaintext: &[u8]) -> (r: Result<Vec<u8>, KmsError>)
        ensures
            r == Err::<Vec<u8>, KmsError>(KmsError::Unsupported),
    {
        Err(KmsError::Unsupported)
    }

    /// A device key never unwraps a blob itself.
    fn unwrap_blob(&self, ciphertext: &[u8]) -> (r: Result<Vec<u8>, KmsError>)
        ensures
            r == Err::<Vec<u8>, KmsError>(KmsError::Unsupported),
    {
        Err(KmsError::Unsupported)
    }
}

} // verus!
