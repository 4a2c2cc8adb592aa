//! The in-memory backend, for ephemeral and debugging deployments: a
//! verified map from storage key to byte buffer. Loading hands back an
//! independent copy, so a later delete cannot invalidate bytes already
//! being streamed to a caller.

use crate::error::{DeleteError, LoadError, SaveError};
use crate::storage::Storage;
use vstd::hash_map::StringHashMap;
use vstd::prelude::*;
use vstd::string::StringExecFns;

verus! {

/// Process-local storage: a plain map, nothing persisted.
pub struct DebugStorage {
    store: StringHashMap<Vec<u8>>,
}

/// The byte view of a stored buffer map.
pub open spec fn buffers_view(m: Map<Seq<char>, Vec<u8>>) -> Map<Seq<char>, Seq<u8>> {
    m.map_values(|v: Vec<u8>| v@)
}

impl DebugStorage {
    /// An empty store.
    pub fn new() -> (r: Self)
        ensures
            r.contents() == Map::<Seq<char>, Seq<u8>>::empty(),
    {
        let r = DebugStorage { store: StringHashMap::new() };
        proof {
            assert(r.contents() =~= Map::<Seq<char>, Seq<u8>>::empty());
        }
        r
    }
}

impl Storage for DebugStorage {
    closed spec fn contents(&self) -> Map<Seq<char>, Seq<u8>> {
        buffers_view(self.store@)
    }

    fn save(&mut self, filename: &str, bytes: Vec<u8>) -> (r: Result<(), SaveError>)
        ensures
            r is Ok,
    {
        let ghost before = self.store@;
        self.store.insert(filename.to_owned(), bytes);
        proof {
            assert(buffers_view(self.store@) =~= buffers_view(before).insert(
                filename@,
                bytes@,
            ));
        }
        Ok(())
    }

    fn load(&self, filename: &str) -> (r: Result<Vec<u8>, LoadError>)
        ensures
            r matches Err(e) ==> (e matches LoadError::FileNotExist(msg) && msg@ == "file "@
                + filename@ + " does not exist"@),
    {
        match self.store.get(filename) {
            Some(buffer) => Ok(vstd::slice::slice_to_vec(buffer.as_slice())),
            None => Err(
                LoadError::FileNotExist(
                    String::from_str("file ").concat(filename).concat(" does not exist"),
                ),
            ),
        }
    }

    fn delete(&mut self, filename: &str) -> (r: Result<(), DeleteError>)
        ensures
            r is Ok,
    {
        let ghost before = self.store@;
        self.store.remove(filename);
        proof {
            assert(buffers_view(self.store@) =~= buffers_view(before).remove(filename@));
        }
        Ok(())
    }
}

} // verus!
