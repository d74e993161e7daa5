//! The association between an observed file and the watch it was discovered
//! under, as persisted alongside the two stores.
use vstd::prelude::*;

verus! {

/// Links a file row to a watch row, each by its path.
#[derive(Debug)]
pub struct FileWatch {
    pub file_id: String,
    pub watch_id: String,
}

impl Clone for FileWatch {
    fn clone(&self) -> (r: Self)
        ensures
            r.file_id@ == self.file_id@,
            r.watch_id@ == self.watch_id@,
    {
        FileWatch { file_id: self.file_id.clone(), watch_id: self.watch_id.clone() }
    }
}

} // verus!
