//! The classifier: the verdict for a tree and the lines it gives rise to.

use vstd::prelude::*;
use crate::report::{lines_view, marker_of, report_for, unreadable_line, Line, LineView};
use crate::status::{RepoStatus, Status};
use crate::tree::{any_repository, lemma_versioned_iff_repository, tree_status, Entry, Tree};
use crate::vcs::repo_status;

verus! {

/// The report lines that a directory queues for its first `n` entries: one
/// for each entry that is untracked or a dirty repository, in the order of
/// the entries.
pub open spec fn own_reports(entries: Seq<Entry>, n: nat) -> Seq<LineView>
    decreases n,
{
    if n == 0 || n > entries.len() {
        Seq::empty()
    } else {
        own_reports(entries, (n - 1) as nat) + report_for(
            tree_status(entries[n - 1].tree),
            entries[n - 1].path@,
        )
    }
}

/// The lines that the first `n` entries of a directory give rise to by
/// themselves, entry after entry.
pub open spec fn nested_output(entries: Seq<Entry>, n: nat) -> Seq<LineView>
    decreases entries, n,
{
    if n == 0 || n > entries.len() {
        Seq::empty()
    } else {
        nested_output(entries, (n - 1) as nat) + tree_output(
            entries[n - 1].path@,
            entries[n - 1].tree,
        )
    }
}

/// Every line that classifying `tree`, found at `path`, gives rise to, in
/// the order in which they are written.
///
/// A plain path and a repository root are silent. A directory that could not
/// be listed gives one diagnostic. Any other directory first gives what its
/// entries give; then, if a repository was found below it, one report line
/// for each entry that is untracked or a dirty repository. With no
/// repository below it the directory queues nothing: whoever holds it
/// reports it as a whole.
pub open spec fn tree_output(path: Seq<char>, tree: Tree) -> Seq<LineView>
    decreases tree, 0nat,
{
    match tree {
        Tree::Plain => Seq::empty(),
        Tree::Repository(_) => Seq::empty(),
        Tree::Unreadable => seq![unreadable_line(path)],
        Tree::Directory(entries) => {
            let nested = nested_output(entries@, entries@.len());
            if any_repository(entries@, entries@.len()) {
                nested + own_reports(entries@, entries@.len())
            } else {
                nested
            }
        },
    }
}

/// What the classifier found: the verdict and the lines to write.
#[derive(Clone, Debug, PartialEq, Eq)]
pub struct Outcome {
    pub status: Status,
    pub output: Vec<Line>,
}

/// Classifies `tree`, found at `path`.
///
/// The walk is depth first and stops at repository roots. The verdict is
/// [`tree_status`], the lines are [`tree_output`].
pub fn classify(path: &String, tree: &Tree) -> (outcome: Outcome)
    ensures
        outcome.status == tree_status(*tree),
        lines_view(outcome.output@) == tree_output(path@, *tree),
    decreases tree,
{
    match tree {
        Tree::Plain => Outcome { status: Status::Untracked, output: Vec::new() },
        Tree::Repository(check) => Outcome {
            status: Status::Versioned(repo_status(check)),
            output: Vec::new(),
        },
        Tree::Unreadable => {
            let mut output: Vec<Line> = Vec::new();
            let line = Line::unreadable(path);
            output.push(line);
            Outcome { status: Status::Untracked, output }
        },
        Tree::Directory(entries) => {
            let mut any_repositories = false;
            let mut output: Vec<Line> = Vec::new();
            let mut reportable: Vec<Line> = Vec::new();
            let mut i: usize = 0;
            while i < entries.len()
                invariant
                    i <= entries.len(),
                    *tree == Tree::Directory(*entries),
                    any_repositories == any_repository(entries@, i as nat),
                    lines_view(output@) == nested_output(entries@, i as nat),
                    lines_view(reportable@) == own_reports(entries@, i as nat),
                decreases entries.len() - i,
            {
                let entry = &entries[i];
                proof {
                    assert(decreases_to!(*tree => tree->Directory_0));
                    lemma_versioned_iff_repository(entry.tree);
                }
                let child = classify(&entry.path, &entry.tree);
                let status = child.status;
                let mut child_output = child.output;
                output.append(&mut child_output);
                match status {
                    Status::Versioned(_) => {
                        any_repositories = true;
                    },
                    Status::Untracked => {},
                }
                match marker_of(status) {
                    Some(marker) => {
                        let line = Line::report(marker, &entry.path);
                        reportable.push(line);
                    },
                    None => {},
                }
                i += 1;
            }
            if any_repositories {
                output.append(&mut reportable);
                Outcome { status: Status::Versioned(RepoStatus::Clean), output }
            } else {
                Outcome { status: Status::Untracked, output }
            }
        },
    }
}

} // verus!
