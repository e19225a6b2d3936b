use vstd::prelude::*;

verus! {

/// Everything that can go wrong when working with a repository.
#[derive(Debug, Clone, Copy, PartialEq, Eq, Structural)]
pub enum RepoError {
    /// The path does not name an existing regular file.
    InvalidPath,
    /// An equal file is already in the tracked set.
    AlreadyTracked,
    /// No tracked file has the requested name.
    NotFound,
    /// The metadata store already exists.
    AlreadyInitialized,
    /// The metadata store does not exist.
    NotInitialized,
    /// No commit has the requested version.
    CommitNotFound,
    /// More versions were requested than have been recorded.
    InvalidRange,
    /// The records read from the store contradict each other.
    CorruptStore,
}

} // verus!
