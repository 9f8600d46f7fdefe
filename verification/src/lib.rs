//! Encryption at rest for an embedded relational database, in two parts.
//!
//! The encrypted page store seals every page of the main database file with
//! AES-256-GCM under a data key, and keeps each data key wrapped under a
//! key-encryption key:
//!
//! - `crypto`: key material, the page cipher, the key envelope;
//! - `kms`: the providers of key-encryption keys;
//! - `keyring`: the data key of each scope of one database;
//! - `io` and `vfs`: what the file-system shim decides for each request;
//! - `backup`: self-contained encrypted backups;
//! - `config`: how the store is set up.
//!
//! The policy engine decides which rows and columns a connection may see, and
//! writes the views and triggers that enforce the decision:
//!
//! - `context`: what a connection claims to be;
//! - `label`: conditions on such claims, their language and evaluation;
//! - `views`: the registry of secured tables, the views and the triggers;
//! - `register`: the operations offered to the database engine;
//! - `authorizer`: which tables a statement may touch directly;
//! - `init`: the metadata tables;
//! - `shim`: the statements of the extended dialect.
//!
//! Nothing here touches a file, the network or the database engine: whoever
//! does hands over bytes and text, and gets bytes and text back.

pub mod error;
pub mod text;
pub mod table;
pub mod crypto;
pub mod kms;
pub mod keyring;
pub mod io;
pub mod backup;
pub mod vfs;
pub mod config;
pub mod context;
pub mod label;
pub mod views;
pub mod register;
pub mod shim;
pub mod authorizer;
pub mod init;
