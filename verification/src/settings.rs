//! Deployment-time choices the process makes once at start.

use crate::validate::eq_ci;
use vstd::prelude::*;

verus! {

/// Which persistence medium backs the store.
#[derive(Debug, Clone, Copy, PartialEq, Eq, Structural)]
pub enum StorageType {
    File,
}

impl Default for StorageType {
    fn default() -> (r: Self)
        ensures
            r == StorageType::File,
    {
        StorageType::File
    }
}

impl StorageType {
    /// Parses a configuration value, ignoring ASCII case: only "file" is
    /// a known storage type.
    pub fn from_str(s: &str) -> (r: Result<StorageType, ()>)
        ensures
            eq_ci(s@, "file"@) ==> r == Ok::<StorageType, ()>(StorageType::File),
            !eq_ci(s@, "file"@) ==> r == Err::<StorageType, ()>(()),
    {
        if crate::validate::str_eq_ci(s, "file") {
            Ok(StorageType::File)
        } else {
            Err(())
        }
    }
}

/// The storage selection handed to the process at start: a directory for
/// the filesystem backend, or the ephemeral in-memory store.
#[derive(Debug, Clone, PartialEq, Eq)]
pub enum StorageCommands {
    FileSystem { path: String },
    Debug,
}

} // verus!
