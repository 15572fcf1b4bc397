//! The guard of a file that must not outlive a failed download.

use vstd::prelude::*;

verus! {

/// Says what becomes of a temporary file when the guard goes out of scope: the
/// file is to be removed unless it was committed.
#[derive(Debug)]
pub struct TempFileGuard {
    path: String,
    committed: bool,
}

impl TempFileGuard {
    /// The path of the file.
    pub closed spec fn path(&self) -> Seq<char> {
        self.path@
    }

    /// The file has been moved to where it belongs.
    pub closed spec fn committed(&self) -> bool {
        self.committed
    }

    /// A guard of the file at `path`, which is not committed.
    pub fn new(path: &str) -> (r: TempFileGuard)
        ensures
            r.path() == path@,
            !r.committed(),
    {
        TempFileGuard { path: path.to_owned(), committed: false }
    }

    /// Commits the file, so that it is not removed.
    pub fn commit(&mut self)
        ensures
            final(self).path() == old(self).path(),
            final(self).committed(),
    {
        self.committed = true;
    }

    /// The file that is to be removed when the guard goes out of scope, if any.
    pub fn file_to_remove(&self) -> (r: Option<&str>)
        ensures
            r is Some <==> !self.committed(),
            r matches Some(path) ==> path@ == self.path(),
    {
        if self.committed {
            None
        } else {
            Some(self.path.as_str())
        }
    }
}

} // verus!
