//! What surrounds the classifier in a run: which roots are scanned, what is
//! written for each root, and how the run ends.

use vstd::prelude::*;
use crate::classify::{classify, tree_output};
use crate::report::{lines_view, marker_of, report_for, Line, LineView};
use crate::status::Status;
use crate::tree::{tree_status, Tree};

verus! {

/// Why a run cannot start.
#[derive(Clone, Copy, Debug, PartialEq, Eq, Structural)]
pub enum DriverError {
    /// No root was named and the working directory is not known.
    NoWorkingDirectory,
}

/// The roots of a run: those named, in the order given; with none named,
/// the working directory alone; with neither, nothing.
pub open spec fn selected_roots(named: Seq<String>, working_directory: Option<String>) -> Option<
    Seq<String>,
> {
    if named.len() > 0 {
        Some(named)
    } else {
        match working_directory {
            Some(directory) => Some(seq![directory]),
            None => None,
        }
    }
}

/// Chooses the roots to scan from the paths named on the command line and
/// the working directory. Fails exactly when no path is named and the
/// working directory is not known.
pub fn select_roots(named: Vec<String>, working_directory: Option<String>) -> (roots: Result<
    Vec<String>,
    DriverError,
>)
    ensures
        match selected_roots(named@, working_directory) {
            Some(chosen) => roots is Ok && roots->Ok_0@ == chosen,
            None => roots == Err::<Vec<String>, DriverError>(DriverError::NoWorkingDirectory),
        },
{
    if named.len() > 0 {
        Ok(named)
    } else {
        match working_directory {
            Some(directory) => {
                let mut roots: Vec<String> = Vec::new();
                roots.push(directory);
                Ok(roots)
            },
            None => Err(DriverError::NoWorkingDirectory),
        }
    }
}

/// Every line that scanning the root at `path` writes: what the classifier
/// gives for `tree`, then the root's own report line unless the root is
/// settled.
pub open spec fn root_output(path: Seq<char>, tree: Tree) -> Seq<LineView> {
    tree_output(path, tree) + report_for(tree_status(tree), path)
}

/// The result of scanning one root.
#[derive(Clone, Debug, PartialEq, Eq)]
pub struct RootReport {
    /// Whether the root is settled: a clean repository, or a directory with
    /// a repository below it whose offenders have all been reported.
    pub clean: bool,
    /// The lines to write, in order.
    pub output: Vec<Line>,
}

/// Ends the scan of the root at `path`, whose verdict is `status`: the root
/// is reported when it is untracked or a dirty repository, and counts as
/// clean only when it is settled.
pub fn conclude(path: &String, status: Status) -> (report: RootReport)
    ensures
        report.clean == status.is_settled(),
        lines_view(report.output@) == report_for(status, path@),
{
    let mut output: Vec<Line> = Vec::new();
    match marker_of(status) {
        Some(marker) => {
            let line = Line::report(marker, path);
            output.push(line);
            RootReport { clean: false, output }
        },
        None => RootReport { clean: true, output },
    }
}

/// Scans one root from a record: classifies `tree`, found at `path`, and
/// reports the root itself when it is untracked or a dirty repository.
pub fn check_untracked(path: &String, tree: &Tree) -> (report: RootReport)
    ensures
        report.clean == tree_status(*tree).is_settled(),
        lines_view(report.output@) == root_output(path@, *tree),
{
    let outcome = classify(path, tree);
    let mut output = outcome.output;
    let RootReport { clean, output: own } = conclude(path, outcome.status);
    let mut own = own;
    output.append(&mut own);
    RootReport { clean, output }
}

/// The exit code of a run, given for each root whether it was settled:
/// 0 when every root was, 1 otherwise.
pub open spec fn exit_code_of(clean: Seq<bool>) -> i32 {
    if forall|i: int| 0 <= i < clean.len() ==> clean[i] {
        0i32
    } else {
        1i32
    }
}

/// Computes the exit code of a run from the results of its roots.
pub fn exit_code(clean: &Vec<bool>) -> (code: i32)
    ensures
        code == exit_code_of(clean@),
{
    let mut ok = true;
    let mut i: usize = 0;
    while i < clean.len()
        invariant
            i <= clean.len(),
            ok == (forall|j: int| 0 <= j < i ==> clean@[j]),
        decreases clean.len() - i,
    {
        if !clean[i] {
            ok = false;
        }
        i += 1;
    }
    if ok {
        0
    } else {
        1
    }
}

} // verus!
