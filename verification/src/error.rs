//! Error kinds of the encrypted page store.

use vstd::prelude::*;

verus! {

/// Why a key-encryption-key provider could not hand out a key.
#[derive(Clone, Copy, Debug, PartialEq, Eq, Structural)]
pub enum KmsError {
    /// The key source could not be read or reached.
    ProviderIO,
    /// The key material does not have exactly 32 bytes.
    KeyFormat,
    /// The provider rejected the request or could not derive the key.
    AuthFailure,
    /// The provider does not know the requested key id.
    UnknownKekId,
    /// The provider cannot wrap or unwrap a blob itself.
    Unsupported,
}

/// Why an operation of the encrypted page store failed.
#[derive(Clone, Copy, Debug, PartialEq, Eq, Structural)]
pub enum EvfsError {
    /// The cipher refused its input, the random source failed, or the page
    /// geometry leaves no room for a 16-byte tag.
    Crypto,
    /// An authentication tag did not validate: wrong key, wrong page number,
    /// or altered bytes.
    AuthFailure,
    /// The key-encryption-key provider failed.
    Provider(KmsError),
    /// A backup does not begin with the magic bytes.
    BadMagic,
    /// A backup header carries a version this library does not read.
    UnsupportedVersion,
    /// A backup header claims a megabyte or more.
    HeaderTooLarge,
    /// A backup ends before its header or one of its pages does.
    TruncatedBackup,
    /// A backup header's bytes do not decode.
    BadHeader,
    /// A database's length is not a whole number of pages.
    BadPageSize,
}

} // verus!
