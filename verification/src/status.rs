//! The two verdicts: one for a repository, one for any path.

use vstd::prelude::*;

verus! {

/// What the status check found in a repository.
#[derive(Clone, Copy, Debug, PartialEq, Eq, Structural)]
pub enum RepoStatus {
    /// Nothing is uncommitted.
    Clean,
    /// Something is uncommitted, or the check was inconclusive.
    Dirty,
}

/// The verdict for a path, repository or not.
#[derive(Clone, Copy, Debug, PartialEq, Eq, Structural)]
pub enum Status {
    /// No repository at the path or anywhere below it.
    Untracked,
    /// A repository root, or a directory with a repository somewhere below it.
    Versioned(RepoStatus),
}

impl Status {
    /// Whether the verdict is `Versioned`, whatever the repository status.
    pub open spec fn is_versioned(self) -> bool {
        self is Versioned
    }

    /// Whether the verdict leaves nothing to report: `Versioned(Clean)`.
    pub open spec fn is_settled(self) -> bool {
        self == Status::Versioned(RepoStatus::Clean)
    }
}

} // verus!
