//! A walk over a recorded tree: what the walk sees there, and that it ends
//! with the verdict and the lines that the tree has.

use vstd::prelude::*;
use crate::classify::{nested_output, own_reports, tree_output};
use crate::driver::root_output;
use crate::report::{report_for, LineView};
use crate::status::{RepoStatus, Status};
use crate::tree::{any_repository, lemma_versioned_iff_repository, tree_status, Entry, Tree};
use crate::vcs::verdict;
use crate::walk::{current, deliver, start, step, well_formed, FrameView, Seen, WalkView};

verus! {

/// The paths of `entries`, in the same order.
pub open spec fn names(entries: Seq<Entry>) -> Seq<Seq<char>> {
    entries.map_values(|entry: Entry| entry.path@)
}

/// What a walk sees below the first `n` entries of a directory, entry
/// after entry.
pub open spec fn entries_sightings(entries: Seq<Entry>, n: nat) -> Seq<Seen>
    decreases entries, n,
{
    if n == 0 || n > entries.len() {
        Seq::empty()
    } else {
        entries_sightings(entries, (n - 1) as nat) + sightings(entries[n - 1].tree)
    }
}

/// What a walk sees on `tree`, in order: the root first, then, for a
/// directory that could be listed, what it sees below each entry. Of a
/// repository it sees the root alone.
pub open spec fn sightings(tree: Tree) -> Seq<Seen>
    decreases tree, 0nat,
{
    match tree {
        Tree::Plain => seq![Seen::NotDirectory],
        Tree::Repository(outcome) => seq![Seen::Repository(verdict(outcome))],
        Tree::Unreadable => seq![Seen::Unreadable],
        Tree::Directory(entries) => seq![Seen::Listing(names(entries@))] + entries_sightings(
            entries@,
            entries@.len(),
        ),
    }
}

/// The walk after the observations `seen`, taken in order, and the lines
/// written on the way.
pub open spec fn run(walk: WalkView, seen: Seq<Seen>) -> (WalkView, Seq<LineView>)
    decreases seen.len(),
{
    if seen.len() == 0 {
        (walk, Seq::empty())
    } else {
        let before = run(walk, seen.drop_last());
        let last = step(before.0, seen.last());
        (last.0, before.1 + last.1)
    }
}

/// The walk that has entered, at its current path, the directory with these
/// entries and has done the first `k` of them.
pub open spec fn inside(walk: WalkView, entries: Seq<Entry>, k: nat) -> WalkView {
    WalkView {
        stack: walk.stack.push(
            FrameView {
                children: names(entries),
                next: k,
                any_repositories: any_repository(entries, k),
                reportable: own_reports(entries, k),
            },
        ),
        ..walk
    }
}

/// Running over one observation is one step.
proof fn lemma_run_one(walk: WalkView, seen: Seen)
    ensures
        run(walk, seq![seen]) == step(walk, seen),
{
    let one = seq![seen];
    assert(run(walk, one.drop_last()) == (walk, Seq::<LineView>::empty()));
}

/// Running over two runs of observations, one after the other, is running
/// over the first and going on from there over the second.
proof fn lemma_run_concat(walk: WalkView, first: Seq<Seen>, second: Seq<Seen>)
    ensures
        run(walk, first + second).0 == run(run(walk, first).0, second).0,
        run(walk, first + second).1 == run(walk, first).1 + run(run(walk, first).0, second).1,
    decreases second.len(),
{
    if second.len() > 0 {
        assert((first + second).drop_last() =~= first + second.drop_last());
        lemma_run_concat(walk, first, second.drop_last());
    }
}

/// Inside a directory, after what the walk sees below the first `k`
/// entries, with one entry at least left to do, the walk has done `k`
/// entries and written what they give by themselves.
proof fn lemma_walk_entries(walk: WalkView, entries: Seq<Entry>, k: nat)
    requires
        well_formed(walk),
        walk.verdict is None,
        k < entries.len(),
    ensures
        run(inside(walk, entries, 0), entries_sightings(entries, k)) == (
            inside(walk, entries, k),
            nested_output(entries, k),
        ),
    decreases entries, k,
{
    if k > 0 {
        let done = (k - 1) as nat;
        let entry = entries[k - 1];
        let middle = inside(walk, entries, done);
        lemma_walk_entries(walk, entries, done);
        lemma_inside_is_well_formed(walk, entries, done);
        lemma_walk_tree(middle, entry.tree);
        lemma_run_concat(
            inside(walk, entries, 0),
            entries_sightings(entries, done),
            sightings(entry.tree),
        );
        lemma_versioned_iff_repository(entry.tree);
        assert(middle.stack.drop_last() =~= walk.stack);
    }
}

/// A walk that enters a directory with an entry left to do stays well
/// formed.
proof fn lemma_inside_is_well_formed(walk: WalkView, entries: Seq<Entry>, k: nat)
    requires
        well_formed(walk),
        k < entries.len(),
    ensures
        well_formed(inside(walk, entries, k)),
        inside(walk, entries, k).verdict == walk.verdict,
{
}

/// After what it sees on `tree`, a walk is where the tree's verdict for
/// the current path takes it, and has written the tree's lines and then
/// those of the directories that the verdict completed.
proof fn lemma_walk_tree(walk: WalkView, tree: Tree)
    requires
        well_formed(walk),
        walk.verdict is None,
    ensures
        run(walk, sightings(tree)) == (
            deliver(walk, tree_status(tree)).0,
            tree_output(current(walk), tree) + deliver(walk, tree_status(tree)).1,
        ),
    decreases tree, 0nat,
{
    match tree {
        Tree::Plain => {
            lemma_run_one(walk, Seen::NotDirectory);
        },
        Tree::Repository(outcome) => {
            lemma_run_one(walk, Seen::Repository(verdict(outcome)));
        },
        Tree::Unreadable => {
            lemma_run_one(walk, Seen::Unreadable);
        },
        Tree::Directory(entries) => {
            let es = entries@;
            let listing = Seen::Listing(names(es));
            lemma_run_one(walk, listing);
            lemma_run_concat(walk, seq![listing], entries_sightings(es, es.len()));
            if es.len() > 0 {
                let done = (es.len() - 1) as nat;
                let entry = es[es.len() - 1];
                let entered = inside(walk, es, 0);
                let middle = inside(walk, es, done);
                lemma_walk_entries(walk, es, done);
                lemma_inside_is_well_formed(walk, es, done);
                lemma_walk_tree(middle, entry.tree);
                lemma_run_concat(entered, entries_sightings(es, done), sightings(entry.tree));
                lemma_versioned_iff_repository(entry.tree);
                assert(middle.stack.drop_last() =~= walk.stack);
            }
        },
    }
}

/// A walk from `root` that sees what `tree` holds ends with the tree's
/// verdict, and writes the tree's lines, in their order, and no others.
pub proof fn lemma_walk_follows_tree(root: Seq<char>, tree: Tree)
    ensures
        run(start(root), sightings(tree)).0.verdict == Some(tree_status(tree)),
        run(start(root), sightings(tree)).1 == tree_output(root, tree),
{
    lemma_walk_tree(start(root), tree);
}

/// A scan that walks from `root` over what `tree` holds, and then reports
/// the root by the verdict the walk ended with, writes what the scan of the
/// recorded tree writes.
pub proof fn lemma_scan_follows_tree(root: Seq<char>, tree: Tree)
    ensures
        ({
            let end = run(start(root), sightings(tree));
            &&& end.0.verdict is Some
            &&& end.1 + report_for(end.0.verdict->0, root) == root_output(root, tree)
        }),
{
    lemma_walk_follows_tree(root, tree);
}

/// Settling a path never takes the walk into a directory.
pub proof fn lemma_deliver_enters_nothing(walk: WalkView, status: Status)
    ensures
        deliver(walk, status).0.stack.len() <= walk.stack.len(),
    decreases walk.stack.len(),
{
    if walk.stack.len() > 0 {
        let outer = WalkView { stack: walk.stack.drop_last(), ..walk };
        lemma_deliver_enters_nothing(outer, Status::Versioned(RepoStatus::Clean));
        lemma_deliver_enters_nothing(outer, Status::Untracked);
    }
}

/// A repository root is not entered: after it was seen, the walk is inside
/// no directory that it was not inside of before, and it has written what
/// the repository's verdict alone gives rise to.
pub proof fn lemma_repository_is_not_entered(walk: WalkView, status: RepoStatus)
    requires
        walk.verdict is None,
    ensures
        step(walk, Seen::Repository(status)) == deliver(walk, Status::Versioned(status)),
        step(walk, Seen::Repository(status)).0.stack.len() <= walk.stack.len(),
{
    lemma_deliver_enters_nothing(walk, Status::Versioned(status));
}

} // verus!
