//! A record of what was seen on disk, and what it means.

use vstd::prelude::*;
use crate::status::{RepoStatus, Status};
use crate::vcs::{verdict, CheckOutcome};

verus! {

/// What was seen at one path.
#[derive(Debug, PartialEq, Eq)]
pub enum Tree {
    /// Not a directory: a file, or nothing at all.
    Plain,
    /// A repository root, with the outcome of the status command run there.
    /// What lies inside a repository is not recorded.
    Repository(CheckOutcome),
    /// A directory that is no repository root and could not be listed.
    Unreadable,
    /// A directory that is no repository root, with its entries in the
    /// order in which they were listed.
    Directory(Vec<Entry>),
}

/// One entry of a directory: its full path and what was seen there.
#[derive(Debug, PartialEq, Eq)]
pub struct Entry {
    pub path: String,
    pub tree: Tree,
}

/// Whether one of the first `n` entries holds a repository.
pub open spec fn any_repository(entries: Seq<Entry>, n: nat) -> bool
    decreases entries, n,
{
    if n == 0 || n > entries.len() {
        false
    } else {
        any_repository(entries, (n - 1) as nat) || contains_repository(entries[n - 1].tree)
    }
}

/// Whether there is a repository at the root of `tree` or anywhere below it.
pub open spec fn contains_repository(tree: Tree) -> bool
    decreases tree, 0nat,
{
    match tree {
        Tree::Plain => false,
        Tree::Repository(_) => true,
        Tree::Unreadable => false,
        Tree::Directory(entries) => any_repository(entries@, entries@.len()),
    }
}

/// The verdict for `tree`: that of the status check for a repository root,
/// `Versioned(Clean)` for a directory with a repository somewhere below it, and
/// `Untracked` for everything else.
pub open spec fn tree_status(tree: Tree) -> Status {
    match tree {
        Tree::Repository(outcome) => Status::Versioned(verdict(outcome)),
        Tree::Directory(_) => if contains_repository(tree) {
            Status::Versioned(RepoStatus::Clean)
        } else {
            Status::Untracked
        },
        _ => Status::Untracked,
    }
}

/// The verdict names a repository exactly when the tree holds one.
pub proof fn lemma_versioned_iff_repository(tree: Tree)
    ensures
        tree_status(tree).is_versioned() <==> contains_repository(tree),
{
}

} // verus!
