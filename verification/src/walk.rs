//! The walk, one observation at a time.
//!
//! A [`Walk`] names the path to look at next and takes what was seen there.
//! It decides where the walk goes: into every directory that is no
//! repository root, never into a repository. Whoever drives it looks at the
//! disk and writes the lines.

use vstd::prelude::*;
use crate::report::{lines_view, marker_of, report_for, unreadable_line, Line, LineView};
use crate::status::{RepoStatus, Status};
use crate::vcs::{repo_status, verdict, CheckOutcome};

verus! {

/// What a path is to the walk, before anything below it is looked at.
#[derive(Clone, Copy, Debug, PartialEq, Eq, Structural)]
pub enum PathKind {
    /// Not a directory: the walk records it as plain.
    NotDirectory,
    /// A directory with the repository marker in it: the walk asks for its
    /// status and goes no deeper.
    RepositoryRoot,
    /// Any other directory: the walk lists it and visits its entries.
    Directory,
}

/// The kind of a path, from two observations: whether the path is a
/// directory, and whether the repository marker is a directory inside it.
/// The marker counts only in a directory.
pub open spec fn kind_of(is_directory: bool, has_marker: bool) -> PathKind {
    if !is_directory {
        PathKind::NotDirectory
    } else if has_marker {
        PathKind::RepositoryRoot
    } else {
        PathKind::Directory
    }
}

/// Decides what the walk does at a path.
pub fn path_kind(is_directory: bool, has_marker: bool) -> (kind: PathKind)
    ensures
        kind == kind_of(is_directory, has_marker),
{
    if !is_directory {
        PathKind::NotDirectory
    } else if has_marker {
        PathKind::RepositoryRoot
    } else {
        PathKind::Directory
    }
}

/// What was seen at the path that the walk asked about.
#[derive(Clone, Debug, PartialEq, Eq)]
pub enum Observation {
    /// The path is not a directory.
    NotDirectory,
    /// The path is a repository root; the status command ended like this.
    Repository(CheckOutcome),
    /// The path is a directory, no repository root, and cannot be listed.
    Unreadable,
    /// The path is a directory, no repository root; these are the full
    /// paths of its entries, in the order in which they were listed.
    Listing(Vec<String>),
}

/// An [`Observation`] as a value of mathematics. Of a status check, only
/// its verdict matters.
pub ghost enum Seen {
    NotDirectory,
    Repository(RepoStatus),
    Unreadable,
    Listing(Seq<Seq<char>>),
}

/// The texts of `paths`, in the same order.
pub open spec fn texts(paths: Seq<String>) -> Seq<Seq<char>> {
    paths.map_values(|path: String| path@)
}

impl View for Observation {
    type V = Seen;

    open spec fn view(&self) -> Seen {
        match *self {
            Observation::NotDirectory => Seen::NotDirectory,
            Observation::Repository(outcome) => Seen::Repository(verdict(outcome)),
            Observation::Unreadable => Seen::Unreadable,
            Observation::Listing(paths) => Seen::Listing(texts(paths@)),
        }
    }
}

/// A directory that the walk is inside of.
#[derive(Debug)]
pub struct Frame {
    children: Vec<String>,
    next: usize,
    any_repositories: bool,
    reportable: Vec<Line>,
}

/// A directory that the walk is inside of: its entries, how many of them
/// are done, whether a repository was found among those, and the report
/// lines queued for them.
pub ghost struct FrameView {
    pub children: Seq<Seq<char>>,
    pub next: nat,
    pub any_repositories: bool,
    pub reportable: Seq<LineView>,
}

impl View for Frame {
    type V = FrameView;

    closed spec fn view(&self) -> FrameView {
        FrameView {
            children: texts(self.children@),
            next: self.next as nat,
            any_repositories: self.any_repositories,
            reportable: lines_view(self.reportable@),
        }
    }
}

/// A walk in progress.
#[derive(Debug)]
pub struct Walk {
    root: String,
    stack: Vec<Frame>,
    verdict: Option<Status>,
}

/// A walk in progress: the root, the directories that the walk is inside
/// of, outermost first, and the root's verdict once the walk is over.
pub ghost struct WalkView {
    pub root: Seq<char>,
    pub stack: Seq<FrameView>,
    pub verdict: Option<Status>,
}

/// The views of `frames`, in the same order.
pub open spec fn frames_view(frames: Seq<Frame>) -> Seq<FrameView> {
    frames.map_values(|frame: Frame| frame@)
}

impl View for Walk {
    type V = WalkView;

    closed spec fn view(&self) -> WalkView {
        WalkView { root: self.root@, stack: frames_view(self.stack@), verdict: self.verdict }
    }
}

/// Every directory that the walk is inside of has an entry left to do.
pub open spec fn well_formed(walk: WalkView) -> bool {
    forall|i: int|
        0 <= i < walk.stack.len() ==> (#[trigger] walk.stack[i]).next
            < walk.stack[i].children.len()
}

/// A walk about to start at `root`.
pub open spec fn start(root: Seq<char>) -> WalkView {
    WalkView { root, stack: Seq::empty(), verdict: None }
}

/// The path that the walk looks at next: the root at the start, else the
/// next entry of the innermost directory.
pub open spec fn current(walk: WalkView) -> Seq<char> {
    if walk.stack.len() == 0 {
        walk.root
    } else {
        walk.stack.last().children[walk.stack.last().next as int]
    }
}

/// The walk once the current path has the verdict `status`, and the lines
/// written on the way.
///
/// The verdict goes to the innermost directory: a repository counts, an
/// untracked path or a dirty repository is queued for reporting. If the
/// directory has entries left, the walk goes on there. If not, the
/// directory is done: with a repository found it writes its queue and is
/// itself settled, without one it writes nothing and is untracked; and its
/// own verdict goes to the directory around it in the same way. With no
/// directory around, the verdict is the root's and the walk is over.
pub open spec fn deliver(walk: WalkView, status: Status) -> (WalkView, Seq<LineView>)
    decreases walk.stack.len(),
{
    if walk.stack.len() == 0 {
        (WalkView { verdict: Some(status), ..walk }, Seq::empty())
    } else {
        let top = walk.stack.last();
        let outer = WalkView { stack: walk.stack.drop_last(), ..walk };
        let noted = FrameView {
            children: top.children,
            next: top.next + 1,
            any_repositories: top.any_repositories || status.is_versioned(),
            reportable: top.reportable + report_for(status, current(walk)),
        };
        if noted.next < noted.children.len() {
            (WalkView { stack: outer.stack.push(noted), ..walk }, Seq::empty())
        } else if noted.any_repositories {
            let after = deliver(outer, Status::Versioned(RepoStatus::Clean));
            (after.0, noted.reportable + after.1)
        } else {
            deliver(outer, Status::Untracked)
        }
    }
}

/// The walk after `seen` was seen at the current path, and the lines
/// written on that account. A walk that is over stays as it is.
pub open spec fn step(walk: WalkView, seen: Seen) -> (WalkView, Seq<LineView>) {
    if walk.verdict is Some {
        (walk, Seq::empty())
    } else {
        match seen {
            Seen::NotDirectory => deliver(walk, Status::Untracked),
            Seen::Repository(status) => deliver(walk, Status::Versioned(status)),
            Seen::Unreadable => {
                let after = deliver(walk, Status::Untracked);
                (after.0, seq![unreadable_line(current(walk))] + after.1)
            },
            Seen::Listing(children) => {
                if children.len() == 0 {
                    deliver(walk, Status::Untracked)
                } else {
                    let entered = FrameView {
                        children,
                        next: 0,
                        any_repositories: false,
                        reportable: Seq::empty(),
                    };
                    (WalkView { stack: walk.stack.push(entered), ..walk }, Seq::empty())
                }
            },
        }
    }
}

/// Hands the verdict of the current path to the innermost directory and
/// closes every directory that this completes. Returns the root's verdict
/// if the walk is over.
fn settle(
    Ghost(root): Ghost<Seq<char>>,
    stack: &mut Vec<Frame>,
    status: Status,
    output: &mut Vec<Line>,
) -> (verdict: Option<Status>)
    requires
        well_formed(WalkView { root, stack: frames_view(old(stack)@), verdict: None }),
    ensures
        ({
            let before = WalkView { root, stack: frames_view(old(stack)@), verdict: None };
            let after = deliver(before, status);
            &&& after.0 == WalkView { root, stack: frames_view(final(stack)@), verdict }
            &&& well_formed(after.0)
            &&& lines_view(final(output)@) == lines_view(old(output)@) + after.1
        }),
    decreases old(stack)@.len(),
{
    let ghost before = WalkView { root, stack: frames_view(stack@), verdict: None };
    if stack.len() == 0 {
        return Some(status);
    }
    let frame = stack.pop().unwrap();
    assert(frames_view(stack@) =~= before.stack.drop_last());
    let ghost outer = WalkView { root, stack: frames_view(stack@), verdict: None };
    let Frame { children, next, any_repositories, reportable } = frame;
    assert(next < children.len());
    let mut reportable = reportable;
    let any_repositories = match status {
        Status::Versioned(_) => true,
        Status::Untracked => any_repositories,
    };
    match marker_of(status) {
        Some(marker) => {
            let line = Line::report(marker, &children[next]);
            reportable.push(line);
            assert(lines_view(reportable@) =~= frame@.reportable + report_for(
                status,
                current(before),
            ));
        },
        None => {},
    }
    let next = next + 1;
    if next < children.len() {
        let open = Frame { children, next, any_repositories, reportable };
        stack.push(open);
        assert(frames_view(stack@) =~= outer.stack.push(open@));
        None
    } else if any_repositories {
        output.append(&mut reportable);
        settle(Ghost(root), stack, Status::Versioned(RepoStatus::Clean), output)
    } else {
        settle(Ghost(root), stack, Status::Untracked, output)
    }
}

impl Walk {
    /// Every directory that the walk is inside of has an entry left to do.
    #[verifier::type_invariant]
    spec fn inv(self) -> bool {
        well_formed(self@)
    }

    /// A walk about to start at `root`.
    pub fn new(root: String) -> (walk: Walk)
        ensures
            walk@ == start(root@),
    {
        let walk = Walk { root, stack: Vec::new(), verdict: None };
        assert(walk@.stack =~= Seq::empty());
        walk
    }

    /// The root's verdict, once the walk is over.
    pub fn verdict(&self) -> (verdict: Option<Status>)
        ensures
            verdict == self@.verdict,
    {
        self.verdict
    }

    /// The path that the walk is at.
    fn current_path(&self) -> (path: &String)
        ensures
            path@ == current(self@),
    {
        proof {
            use_type_invariant(self);
        }
        if self.stack.len() == 0 {
            &self.root
        } else {
            let top = &self.stack[self.stack.len() - 1];
            assert(self@.stack.last() == top@);
            &top.children[top.next]
        }
    }

    /// The path to look at next, or nothing once the walk is over.
    pub fn pending(&self) -> (path: Option<&String>)
        ensures
            well_formed(self@),
            path is None <==> self@.verdict is Some,
            path is Some ==> path->0@ == current(self@),
    {
        proof {
            use_type_invariant(self);
        }
        if self.verdict.is_some() {
            None
        } else {
            Some(self.current_path())
        }
    }

    /// Takes what was seen at the current path and returns the lines to
    /// write now, in order. A walk that is over takes nothing in.
    pub fn observe(&mut self, seen: Observation) -> (output: Vec<Line>)
        ensures
            well_formed(final(self)@),
            final(self)@ == step(old(self)@, seen@).0,
            lines_view(output@) == step(old(self)@, seen@).1,
    {
        proof {
            use_type_invariant(&*self);
        }
        let ghost before = self@;
        let mut output: Vec<Line> = Vec::new();
        assert(lines_view(output@) =~= Seq::empty());
        if self.verdict.is_some() {
            return output;
        }
        // The stack is taken out while it changes and put back when it is
        // well formed again.
        let mut stack: Vec<Frame> = Vec::new();
        let status = match seen {
            Observation::NotDirectory => Status::Untracked,
            Observation::Repository(outcome) => Status::Versioned(repo_status(&outcome)),
            Observation::Unreadable => {
                let line = Line::unreadable(self.current_path());
                output.push(line);
                Status::Untracked
            },
            Observation::Listing(children) => {
                if children.len() == 0 {
                    Status::Untracked
                } else {
                    let entered = Frame {
                        children,
                        next: 0,
                        any_repositories: false,
                        reportable: Vec::new(),
                    };
                    core::mem::swap(&mut self.stack, &mut stack);
                    stack.push(entered);
                    assert(frames_view(stack@) =~= before.stack.push(entered@));
                    core::mem::swap(&mut self.stack, &mut stack);
                    return output;
                }
            },
        };
        let ghost written = lines_view(output@);
        core::mem::swap(&mut self.stack, &mut stack);
        let verdict = settle(Ghost(before.root), &mut stack, status, &mut output);
        assert(well_formed(
            WalkView { root: before.root, stack: frames_view(stack@), verdict: None },
        )) by {
            let after = WalkView { root: before.root, stack: frames_view(stack@), verdict };
            assert forall|i: int| 0 <= i < frames_view(stack@).len() implies (
            #[trigger] frames_view(stack@)[i]).next < frames_view(stack@)[i].children.len() by {
                assert(after.stack[i].next < after.stack[i].children.len());
            }
        }
        core::mem::swap(&mut self.stack, &mut stack);
        self.verdict = verdict;
        output
    }
}

} // verus!
