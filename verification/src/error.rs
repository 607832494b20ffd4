//! The kinds of failure that the object store reports.

use vstd::prelude::*;

verus! {

/// Why an operation of the object store failed.
#[derive(Copy, Clone, Debug, PartialEq, Eq, Structural)]
pub enum StoreError {
    /// No directory from the starting point up to the filesystem root holds
    /// a repository.
    RepositoryNotFound,
    /// The compressor reported a failure. This stands for the error of
    /// the encoder's interface, which no frame brings about.
    CompressionFailed,
}

impl StoreError {
    /// The message that goes with a kind of failure.
    pub open spec fn message_text(self) -> Seq<char> {
        match self {
            StoreError::RepositoryNotFound => "could not find git root"@,
            StoreError::CompressionFailed => "could not compress object"@,
        }
    }

    /// A short description for the user.
    pub fn message(&self) -> (text: &'static str)
        ensures
            text@ == self.message_text(),
    {
        match self {
            StoreError::RepositoryNotFound => "could not find git root",
            StoreError::CompressionFailed => "could not compress object",
        }
    }
}

} // verus!
