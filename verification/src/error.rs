//! Error values surfaced by the storage backends and the access guard.

use vstd::prelude::*;

verus! {

/// A backend could not hand back a stored object: the key is absent, or
/// the object exists but cannot be read.
#[derive(Debug, Clone)]
pub enum LoadError {
    FileNotExist(String),
    PermissionDenied(String),
}

impl LoadError {
    /// The description carried by either variant.
    pub open spec fn message_view(&self) -> Seq<char> {
        match self {
            LoadError::FileNotExist(s) => s@,
            LoadError::PermissionDenied(s) => s@,
        }
    }

    /// The human-readable description of the failure.
    pub fn message(&self) -> (r: String)
        ensures
            r@ == self.message_view(),
    {
        match self {
            LoadError::FileNotExist(s) => s.clone(),
            LoadError::PermissionDenied(s) => s.clone(),
        }
    }
}

/// A backend could not persist a blob.
#[derive(Debug, Clone)]
pub struct SaveError {
    error: String,
}

impl SaveError {
    pub closed spec fn message_view(&self) -> Seq<char> {
        self.error@
    }

    pub fn new(error: String) -> (r: Self)
        ensures
            r.message_view() == error@,
    {
        SaveError { error }
    }

    /// The human-readable description of the failure.
    pub fn message(&self) -> (r: String)
        ensures
            r@ == self.message_view(),
    {
        self.error.clone()
    }
}

/// A backend could not remove a stored object.
#[derive(Debug, Clone)]
pub struct DeleteError {
    error: String,
}

impl DeleteError {
    pub closed spec fn message_view(&self) -> Seq<char> {
        self.error@
    }

    pub fn new(error: String) -> (r: Self)
        ensures
            r.message_view() == error@,
    {
        DeleteError { error }
    }

    /// The human-readable description of the failure.
    pub fn message(&self) -> (r: String)
        ensures
            r@ == self.message_view(),
    {
        self.error.clone()
    }
}

/// Why a mutating request was refused by the access guard: the credential
/// header was absent, or it did not match the configured secret.
#[derive(Debug, Clone, Copy, PartialEq, Eq, Structural)]
pub enum ApiKeyError {
    Missing,
    Invalid,
}

} // verus!
