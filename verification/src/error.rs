//! What can go wrong during a synchronisation run.

use crate::text::join;
use vstd::prelude::*;

verus! {

/// The failures of a run.
///
/// The first six are found before anything is changed. `EmptyPatch` is no
/// failure of the run: the commit is skipped. `PatchGenerationFailed` and
/// `PatchConflict` end a run that has begun.
#[derive(Debug, Clone, PartialEq, Eq)]
pub enum SyncError {
    /// The repository layer refused an operation; its own words.
    Git(String),
    /// The file system or a child process failed; its own words.
    Io(String),
    /// The front end failed; its own words.
    Other(String),
    /// A reference that names no commit.
    InvalidCommit(String),
    /// A path that does not exist.
    PathNotFound(String),
    /// A path that is not the root of a repository.
    NotARepository(String),
    /// A repository with uncommitted changes that may not be stashed.
    DirtyRepository(String),
    /// The commit leaves nothing to apply once its paths are rewritten.
    EmptyPatch,
    /// The patch did not apply; the tool's own words.
    PatchConflict(String),
    /// A branch that does not exist.
    BranchNotFound(String),
    /// No patch could be made; the tool's own words.
    PatchGenerationFailed(String),
}

/// The line shown to the user for `e`.
pub open spec fn message_of(e: SyncError) -> Seq<char> {
    match e {
        SyncError::Git(m) => "Git error: "@ + m@,
        SyncError::Io(m) => "IO error: "@ + m@,
        SyncError::Other(m) => "Anyhow error: "@ + m@,
        SyncError::InvalidCommit(r) => "Invalid commit hash: "@ + r@,
        SyncError::PathNotFound(p) => "Path does not exist: "@ + p@,
        SyncError::NotARepository(p) => "Not a git repository: "@ + p@,
        SyncError::DirtyRepository(p) => "Repository has uncommitted changes: "@ + p@,
        SyncError::EmptyPatch => "Empty patch: the commit does not affect the specified subdirectory"@,
        SyncError::PatchConflict(m) => "Patch conflict: "@ + m@,
        SyncError::BranchNotFound(b) => "Branch not found: "@ + b@,
        SyncError::PatchGenerationFailed(m) => "Failed to generate patch: "@ + m@,
    }
}

impl SyncError {
    /// The line shown to the user.
    pub fn message(&self) -> (line: String)
        ensures
            line@ == message_of(*self),
    {
        match self {
            SyncError::Git(m) => join("Git error: ", m.as_str()),
            SyncError::Io(m) => join("IO error: ", m.as_str()),
            SyncError::Other(m) => join("Anyhow error: ", m.as_str()),
            SyncError::InvalidCommit(r) => join("Invalid commit hash: ", r.as_str()),
            SyncError::PathNotFound(p) => join("Path does not exist: ", p.as_str()),
            SyncError::NotARepository(p) => join("Not a git repository: ", p.as_str()),
            SyncError::DirtyRepository(p) => join(
                "Repository has uncommitted changes: ",
                p.as_str(),
            ),
            SyncError::EmptyPatch => String::from_str(
                "Empty patch: the commit does not affect the specified subdirectory",
            ),
            SyncError::PatchConflict(m) => join("Patch conflict: ", m.as_str()),
            SyncError::BranchNotFound(b) => join("Branch not found: ", b.as_str()),
            SyncError::PatchGenerationFailed(m) => join("Failed to generate patch: ", m.as_str()),
        }
    }
}

} // verus!
