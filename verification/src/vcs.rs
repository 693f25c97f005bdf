//! The version-control backend: how a repository is recognised, which command
//! asks for its status, and how the command's outcome is read.

use vstd::prelude::*;
use vstd::string::StringExecFns;
use crate::status::RepoStatus;

verus! {

/// What came of running the status command in a repository.
#[derive(Clone, Debug, PartialEq, Eq)]
pub enum CheckOutcome {
    /// The command ran; these are the bytes it wrote to its two streams.
    Completed { stdout: Vec<u8>, stderr: Vec<u8> },
    /// The command could not be started.
    SpawnFailed,
}

/// The verdict for a repository, given the outcome of its status command:
/// clean when the command ran and wrote nothing to either stream, dirty
/// otherwise. A command that could not be started counts as dirty.
pub open spec fn verdict(outcome: CheckOutcome) -> RepoStatus {
    match outcome {
        CheckOutcome::Completed { stdout, stderr } => {
            if stdout@.len() == 0 && stderr@.len() == 0 {
                RepoStatus::Clean
            } else {
                RepoStatus::Dirty
            }
        },
        CheckOutcome::SpawnFailed => RepoStatus::Dirty,
    }
}

/// Reads the outcome of the status command.
pub fn repo_status(outcome: &CheckOutcome) -> (status: RepoStatus)
    ensures
        status == verdict(*outcome),
{
    match outcome {
        CheckOutcome::Completed { stdout, stderr } => {
            if stdout.len() == 0 && stderr.len() == 0 {
                RepoStatus::Clean
            } else {
                RepoStatus::Dirty
            }
        },
        CheckOutcome::SpawnFailed => RepoStatus::Dirty,
    }
}

/// The name of the subdirectory whose presence makes a directory a
/// repository root.
pub fn repository_marker() -> (name: &'static str)
    ensures
        name@ == ".git"@,
{
    ".git"
}

/// The words of the status command for the repository at `path`.
pub open spec fn status_command_words(path: Seq<char>) -> Seq<Seq<char>> {
    seq!["git"@, "-C"@, path, "status"@, "--porcelain"@]
}

/// The status command for the repository at `path`, program name first:
/// it restricts the command to that repository and asks for the short,
/// stable listing, which is empty exactly when nothing is uncommitted.
pub fn status_command(path: &String) -> (words: Vec<String>)
    ensures
        words@.len() == 5,
        forall|i: int| 0 <= i < 5 ==> (#[trigger] words@[i])@ == status_command_words(path@)[i],
{
    let mut words: Vec<String> = Vec::new();
    words.push(String::from_str("git"));
    words.push(String::from_str("-C"));
    words.push(path.clone());
    words.push(String::from_str("status"));
    words.push(String::from_str("--porcelain"));
    words
}

} // verus!
