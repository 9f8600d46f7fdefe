//! How the encrypted page store is set up: where its key-encryption key
//! comes from, and the geometry of its pages.

use vstd::prelude::*;

verus! {

/// The two ways to run the store.
#[derive(Debug)]
pub enum Mode {
    /// One device: the key-encryption key comes from a keyfile or is derived
    /// from a passphrase. The keyfile is used where both are given.
    DeviceKey { keyfile: Option<String>, passphrase: Option<String> },
    /// Many tenants: each tenant has a key with a remote key service.
    TenantKey {
        /// The key's identifier with the service.
        key_id: String,
        /// The service's address, where it is not the usual one.
        endpoint: Option<String>,
    },
}

/// What is set up before the store is registered with the database engine.
#[derive(Debug)]
pub struct EvfsBuilder {
    name: String,
    page_size: u32,
    reserve_size: usize,
    mode: Mode,
}

/// A builder as mathematics.
pub struct EvfsBuilderView {
    pub name: Seq<char>,
    pub page_size: u32,
    pub reserve_size: usize,
    pub mode: Mode,
}

impl Mode {
    /// Whether the mode names a source for the key-encryption key.
    pub open spec fn has_key_source(&self) -> bool {
        match self {
            Mode::DeviceKey { keyfile, passphrase } => keyfile is Some || passphrase is Some,
            Mode::TenantKey { .. } => true,
        }
    }

    /// Whether the mode names a source for the key-encryption key.
    pub fn names_key_source(&self) -> (r: bool)
        ensures
            r == self.has_key_source(),
    {
        match self {
            Mode::DeviceKey { keyfile, passphrase } => keyfile.is_some() || passphrase.is_some(),
            Mode::TenantKey { .. } => true,
        }
    }
}

/// The mode that the environment asks for: exactly one of a keyfile, a
/// passphrase and a key identifier must be set; the service's address counts
/// only beside a key identifier.
pub open spec fn mode_of(
    keyfile: Option<String>,
    passphrase: Option<String>,
    key_id: Option<String>,
    endpoint: Option<String>,
) -> Option<Mode> {
    match (keyfile, passphrase, key_id) {
        (Some(path), None, None) => Some(Mode::DeviceKey { keyfile: Some(path), passphrase: None }),
        (None, Some(pw), None) => Some(Mode::DeviceKey { keyfile: None, passphrase: Some(pw) }),
        (None, None, Some(id)) => Some(Mode::TenantKey { key_id: id, endpoint }),
        _ => None,
    }
}

/// The mode that the environment asks for, given the values of its four
/// options.
pub fn mode_from_options(
    keyfile: Option<String>,
    passphrase: Option<String>,
    key_id: Option<String>,
    endpoint: Option<String>,
) -> (r: Option<Mode>)
    ensures
        r == mode_of(keyfile, passphrase, key_id, endpoint),
{
    match (keyfile, passphrase, key_id) {
        (Some(path), None, None) => Some(Mode::DeviceKey { keyfile: Some(path), passphrase: None }),
        (None, Some(pw), None) => Some(Mode::DeviceKey { keyfile: None, passphrase: Some(pw) }),
        (None, None, Some(id)) => Some(Mode::TenantKey { key_id: id, endpoint }),
        _ => None,
    }
}

impl View for EvfsBuilder {
    type V = EvfsBuilderView;

    closed spec fn view(&self) -> EvfsBuilderView {
        EvfsBuilderView {
            name: self.name@,
            page_size: self.page_size,
            reserve_size: self.reserve_size,
            mode: self.mode,
        }
    }
}

impl EvfsBuilder {
    /// A builder for `mode`, with the name `evfs`, pages of 4096 bytes and a
    /// reserve of 48: a 16-byte tag, and room to spare.
    pub fn new(mode: Mode) -> (r: Self)
        requires
            mode.has_key_source(),
        ensures
            r@ == (EvfsBuilderView { name: "evfs"@, page_size: 4096, reserve_size: 48, mode }),
    {
        EvfsBuilder { name: String::from_str("evfs"), page_size: 4096, reserve_size: 48, mode }
    }

    /// The builder with another page size.
    pub fn page_size(self, size: u32) -> (r: Self)
        ensures
            r@ == (EvfsBuilderView { page_size: size, ..self@ }),
    {
        EvfsBuilder {
            name: self.name,
            page_size: size,
            reserve_size: self.reserve_size,
            mode: self.mode,
        }
    }

    /// The builder with another reserve.
    pub fn reserve_size(self, size: usize) -> (r: Self)
        ensures
            r@ == (EvfsBuilderView { reserve_size: size, ..self@ }),
    {
        EvfsBuilder {
            name: self.name,
            page_size: self.page_size,
            reserve_size: size,
            mode: self.mode,
        }
    }

    /// The builder with another name.
    pub fn vfs_name(self, name: &str) -> (r: Self)
        ensures
            r@ == (EvfsBuilderView { name: name@, ..self@ }),
    {
        EvfsBuilder {
            name: name.to_owned(),
            page_size: self.page_size,
            reserve_size: self.reserve_size,
            mode: self.mode,
        }
    }

    /// What was set up: the name, the page size, the reserve and the mode.
    pub fn into_parts(self) -> (r: (String, u32, usize, Mode))
        ensures
            r.0@ == self@.name,
            r.1 == self@.page_size,
            r.2 == self@.reserve_size,
            r.3 == self@.mode,
    {
        (self.name, self.page_size, self.reserve_size, self.mode)
    }
}

} // verus!
