//! What holds of the classifier on every tree.

use vstd::prelude::*;
use crate::classify::{nested_output, own_reports, tree_output, Outcome};
use crate::report::{lines_view, report_line, Channel, LineView, Marker};
use crate::status::{RepoStatus, Status};
use crate::tree::{
    any_repository, contains_repository, lemma_versioned_iff_repository, tree_status, Entry, Tree,
};
use crate::vcs::{verdict, CheckOutcome};

verus! {

/// Whether one of the first `n` entries holds a directory that could not be
/// listed.
pub open spec fn any_unreadable(entries: Seq<Entry>, n: nat) -> bool
    decreases entries, n,
{
    if n == 0 || n > entries.len() {
        false
    } else {
        any_unreadable(entries, (n - 1) as nat) || contains_unreadable(entries[n - 1].tree)
    }
}

/// Whether `tree` is, or holds outside its repositories, a directory that
/// could not be listed.
pub open spec fn contains_unreadable(tree: Tree) -> bool
    decreases tree, 0nat,
{
    match tree {
        Tree::Plain => false,
        Tree::Repository(_) => false,
        Tree::Unreadable => true,
        Tree::Directory(entries) => any_unreadable(entries@, entries@.len()),
    }
}

/// Whether `tree` is a clean repository with nothing beside it: a clean
/// repository root, or a directory whose only entry is such a tree.
pub open spec fn lone_clean_repository(tree: Tree) -> bool
    decreases tree,
{
    match tree {
        Tree::Repository(outcome) => verdict(outcome) == RepoStatus::Clean,
        Tree::Directory(entries) => entries@.len() == 1 && lone_clean_repository(
            entries@[0].tree,
        ),
        _ => false,
    }
}

/// A path that is not a directory is untracked, and silent.
pub proof fn lemma_plain_is_untracked(path: Seq<char>)
    ensures
        tree_status(Tree::Plain) == Status::Untracked,
        tree_output(path, Tree::Plain) == Seq::<LineView>::empty(),
{
}

/// A repository root gets the verdict of its status check and is silent.
/// Nothing below the root takes part: the tree records nothing there.
pub proof fn lemma_repository_is_opaque(path: Seq<char>, outcome: CheckOutcome)
    ensures
        tree_status(Tree::Repository(outcome)) == Status::Versioned(verdict(outcome)),
        tree_output(path, Tree::Repository(outcome)) == Seq::<LineView>::empty(),
{
}

/// The first `n` entries hold a repository exactly when one of them does.
pub proof fn lemma_any_repository_is_exists(entries: Seq<Entry>, n: nat)
    requires
        n <= entries.len(),
    ensures
        any_repository(entries, n) <==> exists|k: int|
            0 <= k < n && contains_repository(#[trigger] entries[k].tree),
    decreases n,
{
    if n > 0 {
        lemma_any_repository_is_exists(entries, (n - 1) as nat);
    }
}

/// Without a repository, the entries give nothing on the output channel,
/// and nothing at all when every directory among them could be listed.
proof fn lemma_entries_without_repository(entries: Seq<Entry>, n: nat)
    requires
        n <= entries.len(),
        !any_repository(entries, n),
    ensures
        forall|i: int|
            0 <= i < nested_output(entries, n).len() ==> (#[trigger] nested_output(
                entries,
                n,
            )[i]).channel == Channel::Error,
        !any_unreadable(entries, n) ==> nested_output(entries, n).len() == 0,
    decreases entries, n,
{
    if n > 0 {
        lemma_entries_without_repository(entries, (n - 1) as nat);
        lemma_tree_without_repository(entries[n - 1].path@, entries[n - 1].tree);
    }
}

/// Without a repository, a tree gives nothing on the output channel, and
/// nothing at all when every directory in it could be listed.
proof fn lemma_tree_without_repository(path: Seq<char>, tree: Tree)
    requires
        !contains_repository(tree),
    ensures
        forall|i: int|
            0 <= i < tree_output(path, tree).len() ==> (#[trigger] tree_output(
                path,
                tree,
            )[i]).channel == Channel::Error,
        !contains_unreadable(tree) ==> tree_output(path, tree).len() == 0,
    decreases tree, 0nat,
{
    match tree {
        Tree::Directory(entries) => {
            lemma_entries_without_repository(entries@, entries@.len());
        },
        _ => {},
    }
}

/// A tree with no repository anywhere is untracked and writes nothing to
/// the output channel. All it can write are the diagnostics for directories
/// that could not be listed; where there is none, it is silent.
pub proof fn lemma_no_repository_is_untracked(path: Seq<char>, tree: Tree)
    requires
        !contains_repository(tree),
    ensures
        tree_status(tree) == Status::Untracked,
        forall|i: int|
            0 <= i < tree_output(path, tree).len() ==> (#[trigger] tree_output(
                path,
                tree,
            )[i]).channel == Channel::Error,
        !contains_unreadable(tree) ==> tree_output(path, tree) == Seq::<LineView>::empty(),
{
    lemma_tree_without_repository(path, tree);
}

/// A clean repository with nothing beside it is settled and silent.
pub proof fn lemma_lone_clean_repository_is_silent(path: Seq<char>, tree: Tree)
    requires
        lone_clean_repository(tree),
    ensures
        tree_status(tree) == Status::Versioned(RepoStatus::Clean),
        tree_output(path, tree) == Seq::<LineView>::empty(),
    decreases tree,
{
    match tree {
        Tree::Directory(entries) => {
            let only = entries@[0];
            lemma_lone_clean_repository_is_silent(only.path@, only.tree);
            lemma_versioned_iff_repository(only.tree);
            assert(nested_output(entries@, 0) =~= Seq::empty());
            assert(own_reports(entries@, 0) =~= Seq::empty());
        },
        _ => {},
    }
}

/// Where entry `k` is a clean repository root and every other entry is
/// plain, the first `n` entries give nothing by themselves, and the
/// directory queues one line for each plain entry among them, in order.
proof fn lemma_reports_among_files(entries: Seq<Entry>, k: int, n: nat)
    requires
        0 <= k < entries.len(),
        n <= entries.len(),
        entries[k].tree is Repository,
        verdict(entries[k].tree->Repository_0) == RepoStatus::Clean,
        forall|i: int| 0 <= i < entries.len() && i != k ==> (#[trigger] entries[i]).tree is Plain,
    ensures
        nested_output(entries, n).len() == 0,
        any_repository(entries, n) == (k < n),
        own_reports(entries, n).len() == if k < n { n - 1 } else { n as int },
        forall|j: int|
            0 <= j < n && j < k ==> #[trigger] own_reports(entries, n)[j] == report_line(
                Marker::Untracked,
                entries[j].path@,
            ),
        forall|j: int|
            k <= j < n - 1 ==> #[trigger] own_reports(entries, n)[j] == report_line(
                Marker::Untracked,
                entries[j + 1].path@,
            ),
    decreases n,
{
    if n > 0 {
        lemma_reports_among_files(entries, k, (n - 1) as nat);
        let last = entries[n - 1];
        if n - 1 == k {
            assert(contains_repository(last.tree));
        } else {
            assert(!contains_repository(last.tree));
        }
        assert(tree_output(last.path@, last.tree) =~= Seq::empty());
    }
}

/// A directory whose entries are one clean repository root, at entry `k`,
/// and otherwise plain files is settled. It reports each of the files as
/// untracked, in the order of the entries, and nothing else; so it is
/// silent exactly when the repository is its only entry.
pub proof fn lemma_clean_repository_among_files(path: Seq<char>, entries: Vec<Entry>, k: int)
    requires
        0 <= k < entries@.len(),
        entries@[k].tree is Repository,
        verdict(entries@[k].tree->Repository_0) == RepoStatus::Clean,
        forall|i: int|
            0 <= i < entries@.len() && i != k ==> (#[trigger] entries@[i]).tree is Plain,
    ensures
        tree_status(Tree::Directory(entries)) == Status::Versioned(RepoStatus::Clean),
        tree_output(path, Tree::Directory(entries)).len() == entries@.len() - 1,
        forall|j: int|
            0 <= j < k ==> #[trigger] tree_output(path, Tree::Directory(entries))[j]
                == report_line(Marker::Untracked, entries@[j].path@),
        forall|j: int|
            k <= j < entries@.len() - 1 ==> #[trigger] tree_output(
                path,
                Tree::Directory(entries),
            )[j] == report_line(Marker::Untracked, entries@[j + 1].path@),
{
    lemma_reports_among_files(entries@, k, entries@.len());
}

/// Two runs of the classifier on the same tree at the same path agree in
/// verdict and in every line.
pub proof fn lemma_classify_is_repeatable(
    path: Seq<char>,
    tree: Tree,
    first: Outcome,
    second: Outcome,
)
    requires
        first.status == tree_status(tree),
        lines_view(first.output@) == tree_output(path, tree),
        second.status == tree_status(tree),
        lines_view(second.output@) == tree_output(path, tree),
    ensures
        first.status == second.status,
        lines_view(first.output@) == lines_view(second.output@),
        first.output@.len() == second.output@.len(),
        forall|i: int|
            0 <= i < first.output@.len() ==> (#[trigger] first.output@[i])@ == second.output@[i]@,
{
    assert(lines_view(first.output@).len() == first.output@.len());
    assert forall|i: int| 0 <= i < first.output@.len() implies (#[trigger] first.output@[i])@
        == second.output@[i]@ by {
        assert(lines_view(first.output@)[i] == first.output@[i]@);
    }
}

/// A repository whose status check could not be started is dirty: never
/// clean, never untracked.
pub proof fn lemma_spawn_failure_is_dirty()
    ensures
        tree_status(Tree::Repository(CheckOutcome::SpawnFailed)) == Status::Versioned(
            RepoStatus::Dirty,
        ),
{
}

/// A directory that holds, at entry `k`, a repository whose status check
/// could not be started is settled, whatever its other entries are: the
/// scan goes on and the directory counts as holding a repository.
pub proof fn lemma_spawn_failure_keeps_scanning(entries: Vec<Entry>, k: int)
    requires
        0 <= k < entries@.len(),
        entries@[k].tree == Tree::Repository(CheckOutcome::SpawnFailed),
    ensures
        tree_status(Tree::Directory(entries)) == Status::Versioned(RepoStatus::Clean),
{
    lemma_any_repository_is_exists(entries@, entries@.len());
}

} // verus!
