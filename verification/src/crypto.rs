//! Key material, the page cipher and the key envelope.

pub mod aead;
pub mod envelope;
pub mod keys;
pub mod page;

