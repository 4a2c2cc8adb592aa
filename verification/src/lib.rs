//! Core of an attachment-storage service: untrusted filenames are turned
//! into safe storage keys, mutating requests are checked against a shared
//! credential, and byte blobs are saved, served and deleted through a
//! storage-backend contract with a verified in-memory implementation.

pub mod auth;
pub mod error;
pub mod routes;
pub mod settings;
pub mod storage;
pub mod validate;
