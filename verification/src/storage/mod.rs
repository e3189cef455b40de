//! What the protocol needs of a storage backend: how its errors are told,
//! and how values are laid down in bytes.

pub mod access;
pub mod persistable;
