//! The lines that the audit writes, and the channel each one goes to.

use vstd::prelude::*;
use vstd::string::StringExecFns;
use crate::status::{RepoStatus, Status};

verus! {

/// Where a line is written.
#[derive(Clone, Copy, Debug, PartialEq, Eq, Structural)]
pub enum Channel {
    /// The report proper: one line per offender.
    Output,
    /// Diagnostics about the scan itself.
    Error,
}

/// Why a path is reported.
#[derive(Clone, Copy, Debug, PartialEq, Eq, Structural)]
pub enum Marker {
    /// No repository holds the path.
    Untracked,
    /// The path is a repository with uncommitted changes.
    Modified,
}

impl Marker {
    /// The letter that opens a report line: `u` or `m`.
    pub open spec fn letter(self) -> char {
        match self {
            Marker::Untracked => 'u',
            Marker::Modified => 'm',
        }
    }
}

/// One line of text, without its line end, and the channel it goes to.
#[derive(Clone, Debug, PartialEq, Eq)]
pub struct Line {
    pub channel: Channel,
    pub text: String,
}

/// A [`Line`] as a value of mathematics.
pub ghost struct LineView {
    pub channel: Channel,
    pub text: Seq<char>,
}

impl View for Line {
    type V = LineView;

    open spec fn view(&self) -> LineView {
        LineView { channel: self.channel, text: self.text@ }
    }
}

/// The views of the lines of `lines`, in the same order.
pub open spec fn lines_view(lines: Seq<Line>) -> Seq<LineView> {
    lines.map_values(|line: Line| line@)
}

/// The report line for `path`: the marker's letter, a space, the path.
pub open spec fn report_line(marker: Marker, path: Seq<char>) -> LineView {
    LineView { channel: Channel::Output, text: seq![marker.letter(), ' '] + path }
}

/// The diagnostic for a directory at `path` that could not be listed.
pub open spec fn unreadable_line(path: Seq<char>) -> LineView {
    LineView { channel: Channel::Error, text: "! unable to read directory "@ + path }
}

/// The marker under which a path with verdict `status` is reported, if it is
/// reported at all: a clean verdict is not.
pub open spec fn marker_for(status: Status) -> Option<Marker> {
    match status {
        Status::Untracked => Some(Marker::Untracked),
        Status::Versioned(RepoStatus::Dirty) => Some(Marker::Modified),
        Status::Versioned(RepoStatus::Clean) => None,
    }
}

/// The lines, none or one, that report a path with verdict `status`.
pub open spec fn report_for(status: Status, path: Seq<char>) -> Seq<LineView> {
    match marker_for(status) {
        Some(marker) => seq![report_line(marker, path)],
        None => Seq::empty(),
    }
}

impl Line {
    /// The report line for `path` under `marker`.
    pub fn report(marker: Marker, path: &String) -> (line: Line)
        ensures
            line@ == report_line(marker, path@),
    {
        let mut text = match marker {
            Marker::Untracked => String::from_str("u "),
            Marker::Modified => String::from_str("m "),
        };
        proof {
            reveal_strlit("u ");
            reveal_strlit("m ");
            assert(text@ =~= seq![marker.letter(), ' ']);
        }
        text.append(path.as_str());
        Line { channel: Channel::Output, text }
    }

    /// The diagnostic for a directory at `path` that could not be listed.
    pub fn unreadable(path: &String) -> (line: Line)
        ensures
            line@ == unreadable_line(path@),
    {
        let mut text = String::from_str("! unable to read directory ");
        text.append(path.as_str());
        Line { channel: Channel::Error, text }
    }
}

/// Chooses the marker under which a path with verdict `status` is reported.
pub fn marker_of(status: Status) -> (marker: Option<Marker>)
    ensures
        marker == marker_for(status),
{
    match status {
        Status::Untracked => Some(Marker::Untracked),
        Status::Versioned(RepoStatus::Dirty) => Some(Marker::Modified),
        Status::Versioned(RepoStatus::Clean) => None,
    }
}

} // verus!
