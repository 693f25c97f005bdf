use repo_audit::driver::{check_untracked, exit_code, select_roots, DriverError};
use repo_audit::report::{marker_of, Channel, Line, Marker};
use repo_audit::status::{RepoStatus, Status};
use repo_audit::tree::{Entry, Tree};
use repo_audit::vcs::CheckOutcome;

fn repo(stdout: &[u8]) -> Tree {
    Tree::Repository(CheckOutcome::Completed { stdout: stdout.to_vec(), stderr: vec![] })
}

fn line(text: &str) -> Line {
    Line { channel: Channel::Output, text: text.to_string() }
}

#[test]
fn named_roots_are_taken_in_order() {
    let named = vec!["b".to_string(), "a".to_string()];
    let roots = select_roots(named, Some("/cwd".to_string()));
    assert_eq!(roots, Ok(vec!["b".to_string(), "a".to_string()]));
}

#[test]
fn named_roots_need_no_working_directory() {
    let roots = select_roots(vec!["only".to_string()], None);
    assert_eq!(roots, Ok(vec!["only".to_string()]));
}

#[test]
fn working_directory_is_the_default_root() {
    let roots = select_roots(vec![], Some("/cwd".to_string()));
    assert_eq!(roots, Ok(vec!["/cwd".to_string()]));
}

#[test]
fn no_root_at_all_is_an_error() {
    assert_eq!(select_roots(vec![], None), Err(DriverError::NoWorkingDirectory));
}

#[test]
fn untracked_root_is_reported() {
    let report = check_untracked(&"/w".to_string(), &Tree::Directory(vec![]));
    assert!(!report.clean);
    assert_eq!(report.output, vec![line("u /w")]);
}

#[test]
fn missing_root_is_reported_as_untracked() {
    let report = check_untracked(&"/gone".to_string(), &Tree::Plain);
    assert!(!report.clean);
    assert_eq!(report.output, vec![line("u /gone")]);
}

#[test]
fn dirty_root_is_reported() {
    let report = check_untracked(&"/w/repo".to_string(), &repo(b"?? new\n"));
    assert!(!report.clean);
    assert_eq!(report.output, vec![line("m /w/repo")]);
}

#[test]
fn clean_root_is_silent() {
    let report = check_untracked(&"/w/repo".to_string(), &repo(b""));
    assert!(report.clean);
    assert!(report.output.is_empty());
}

#[test]
fn root_with_offenders_below_is_clean_after_reporting_them() {
    let tree = Tree::Directory(vec![
        Entry { path: "/w/dirty".to_string(), tree: repo(b" M f\n") },
        Entry { path: "/w/stray".to_string(), tree: Tree::Plain },
    ]);
    let report = check_untracked(&"/w".to_string(), &tree);
    assert!(report.clean);
    assert_eq!(report.output, vec![line("m /w/dirty"), line("u /w/stray")]);
}

#[test]
fn unreadable_root_writes_diagnostic_then_report() {
    let report = check_untracked(&"/w".to_string(), &Tree::Unreadable);
    assert!(!report.clean);
    assert_eq!(
        report.output,
        vec![
            Line { channel: Channel::Error, text: "! unable to read directory /w".to_string() },
            line("u /w"),
        ]
    );
}

#[test]
fn markers_by_verdict() {
    assert_eq!(marker_of(Status::Untracked), Some(Marker::Untracked));
    assert_eq!(marker_of(Status::Versioned(RepoStatus::Dirty)), Some(Marker::Modified));
    assert_eq!(marker_of(Status::Versioned(RepoStatus::Clean)), None);
}

#[test]
fn exit_codes() {
    assert_eq!(exit_code(&vec![]), 0);
    assert_eq!(exit_code(&vec![true, true]), 0);
    assert_eq!(exit_code(&vec![true, false, true]), 1);
    assert_eq!(exit_code(&vec![false]), 1);
}
