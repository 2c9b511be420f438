//! Saving raw answers: what is written for an answer of a given size.

use vstd::prelude::*;

verus! {

/// The largest answer that is saved as it is, in bytes.
pub const MAX_FILE_SIZE_BYTES: usize = 5_242_880;

/// What is written for an answer.
#[derive(Debug, Clone, Copy, PartialEq, Eq, Structural)]
pub enum SavePlan {
    /// The answer itself.
    Whole,
    /// A note that the answer was left out for its size.
    Placeholder { max_size_bytes: usize, actual_size_bytes: usize },
}

/// Saves raw answers to files, and counts them.
pub struct FileSystemJsonPersister {
    files_written: usize,
}

impl FileSystemJsonPersister {
    /// How many answers were saved.
    pub closed spec fn count(&self) -> nat {
        self.files_written as nat
    }

    /// A persister that has saved nothing.
    pub fn new() -> (p: Self)
        ensures
            p.count() == 0,
    {
        FileSystemJsonPersister { files_written: 0 }
    }

    /// What is written for an answer whose text is `size` bytes long: the
    /// answer itself up to the limit, a note with both sizes beyond it.
    pub fn plan(&self, size: usize) -> (plan: SavePlan)
        ensures
            size <= MAX_FILE_SIZE_BYTES ==> plan == SavePlan::Whole,
            size > MAX_FILE_SIZE_BYTES ==> plan == (SavePlan::Placeholder {
                max_size_bytes: MAX_FILE_SIZE_BYTES,
                actual_size_bytes: size,
            }),
    {
        if size > MAX_FILE_SIZE_BYTES {
            SavePlan::Placeholder { max_size_bytes: MAX_FILE_SIZE_BYTES, actual_size_bytes: size }
        } else {
            SavePlan::Whole
        }
    }

    /// Counts one saved answer. Beyond the largest number the machine
    /// holds the count begins again at zero.
    pub fn record_write(&mut self)
        ensures
            final(self).count() == if old(self).count() < usize::MAX {
                old(self).count() + 1
            } else {
                0
            },
    {
        if self.files_written < usize::MAX {
            self.files_written += 1;
        } else {
            self.files_written = 0;
        }
    }

    /// How many answers were saved.
    pub fn files_written(&self) -> (n: usize)
        ensures
            n == self.count(),
    {
        self.files_written
    }
}

} // verus!
