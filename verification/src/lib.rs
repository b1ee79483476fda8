//! Request rules of the vault's cipher API: who may read, write, share,
//! move and delete ciphers, how a posted cipher is merged into a stored one,
//! how collection membership is brought in line with a request, and how an
//! import places ciphers into freshly created folders.
//!
//! Database reads and writes are not done here: each function takes what was
//! read as plain values and returns what must be written.
pub mod error;
pub mod json;
pub mod model;
pub mod update;
pub mod collections;
pub mod access;
pub mod share;
pub mod selection;
pub mod import;
pub mod attachment;
pub mod purge;
