//! The storage-backend contract: a backend is a key → bytes map, and
//! save, load and delete act on it exactly as map insertion, lookup and
//! removal.

pub mod debug;

use crate::error::{DeleteError, LoadError, SaveError};
use vstd::prelude::*;

verus! {

/// What every backend promises. `contents` is the backend's abstract
/// state: which bytes each storage key holds.
///
/// A failed save or delete leaves the store as it was; a delete can only
/// fail for a key that is actually present, so deleting an absent key is
/// never an error; a load succeeds exactly on the keys that are present.
pub trait Storage: Sized {
    /// The key → bytes map the backend currently stores.
    spec fn contents(&self) -> Map<Seq<char>, Seq<u8>>;

    /// Persists `bytes` under `filename`, overwriting silently, without
    /// touching any other key.
    fn save(&mut self, filename: &str, bytes: Vec<u8>) -> (r: Result<(), SaveError>)
        ensures
            r is Ok ==> final(self).contents() == old(self).contents().insert(
                filename@,
                bytes@,
            ),
            r is Err ==> final(self).contents() == old(self).contents(),
    ;

    /// Hands back the bytes stored under `filename`, or says why not.
    fn load(&self, filename: &str) -> (r: Result<Vec<u8>, LoadError>)
        ensures
            match r {
                Ok(bytes) => self.contents().contains_key(filename@) && bytes@
                    == self.contents()[filename@],
                Err(_) => !self.contents().contains_key(filename@),
            },
    ;

    /// Removes `filename` from the store. Deleting an absent key
    /// succeeds and changes nothing.
    fn delete(&mut self, filename: &str) -> (r: Result<(), DeleteError>)
        ensures
            r is Ok ==> final(self).contents() == old(self).contents().remove(filename@),
            r is Err ==> final(self).contents() == old(self).contents() && old(
                self,
            ).contents().contains_key(filename@),
    ;
}

} // verus!
