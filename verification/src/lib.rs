//! Backend data layer for a federated identity directory: injection-safe
//! query construction, credential generation (salt, memory-hard hash,
//! fixed-width encoding), and normalization of the backing store's
//! per-statement query responses.

pub mod actor;
pub mod codec;
pub mod db;
pub mod err;
pub mod finger;
pub mod json;
pub mod validate;
