use repo_audit::classify::classify;
use repo_audit::driver::conclude;
use repo_audit::report::{Channel, Line};
use repo_audit::status::{RepoStatus, Status};
use repo_audit::tree::{Entry, Tree};
use repo_audit::vcs::CheckOutcome;
use repo_audit::walk::{Observation, Walk};

fn clean() -> CheckOutcome {
    CheckOutcome::Completed { stdout: vec![], stderr: vec![] }
}

fn dirty() -> CheckOutcome {
    CheckOutcome::Completed { stdout: vec![b'?', b'?', b' ', b'f', b'\n'], stderr: vec![] }
}

fn entry(path: &str, tree: Tree) -> Entry {
    Entry { path: path.to_string(), tree }
}

fn out(text: &str) -> Line {
    Line { channel: Channel::Output, text: text.to_string() }
}

fn err(text: &str) -> Line {
    Line { channel: Channel::Error, text: text.to_string() }
}

fn listing(paths: &[&str]) -> Observation {
    Observation::Listing(paths.iter().map(|path| path.to_string()).collect())
}

fn pending(walk: &Walk) -> Option<String> {
    walk.pending().cloned()
}

fn feed(walk: &mut Walk, tree: &Tree, lines: &mut Vec<Line>) {
    match tree {
        Tree::Plain => lines.extend(walk.observe(Observation::NotDirectory)),
        Tree::Repository(outcome) => {
            lines.extend(walk.observe(Observation::Repository(outcome.clone())))
        }
        Tree::Unreadable => lines.extend(walk.observe(Observation::Unreadable)),
        Tree::Directory(entries) => {
            let paths = entries.iter().map(|entry| entry.path.clone()).collect();
            lines.extend(walk.observe(Observation::Listing(paths)));
            for entry in entries {
                assert_eq!(pending(walk), Some(entry.path.clone()));
                feed(walk, &entry.tree, lines);
            }
        }
    }
}

fn replay(root: &str, tree: &Tree) -> (Option<Status>, Vec<Line>) {
    let mut walk = Walk::new(root.to_string());
    let mut lines = Vec::new();
    assert_eq!(pending(&walk), Some(root.to_string()));
    feed(&mut walk, tree, &mut lines);
    assert_eq!(pending(&walk), None);
    (walk.verdict(), lines)
}

fn sample() -> Tree {
    Tree::Directory(vec![
        entry("/w/top.txt", Tree::Plain),
        entry(
            "/w/group",
            Tree::Directory(vec![
                entry("/w/group/dirty", Tree::Repository(dirty())),
                entry("/w/group/locked", Tree::Unreadable),
                entry("/w/group/deep", Tree::Directory(vec![entry("/w/group/deep/x", Tree::Plain)])),
            ]),
        ),
        entry("/w/clean", Tree::Repository(clean())),
        entry("/w/bare", Tree::Directory(vec![])),
        entry("/w/broken", Tree::Repository(CheckOutcome::SpawnFailed)),
    ])
}

#[test]
fn new_walk_asks_for_the_root() {
    let walk = Walk::new("/w".to_string());
    assert_eq!(pending(&walk), Some("/w".to_string()));
    assert_eq!(walk.verdict(), None);
}

#[test]
fn walk_over_plain_root_ends_untracked() {
    let mut walk = Walk::new("/w/file".to_string());
    assert!(walk.observe(Observation::NotDirectory).is_empty());
    assert_eq!(walk.verdict(), Some(Status::Untracked));
    assert_eq!(pending(&walk), None);
}

#[test]
fn walk_does_not_enter_a_repository() {
    let mut walk = Walk::new("/w".to_string());
    assert!(walk.observe(listing(&["/w/repo", "/w/after"])).is_empty());
    assert_eq!(pending(&walk), Some("/w/repo".to_string()));
    assert!(walk.observe(Observation::Repository(clean())).is_empty());
    assert_eq!(pending(&walk), Some("/w/after".to_string()));
    let lines = walk.observe(Observation::NotDirectory);
    assert_eq!(lines, vec![out("u /w/after")]);
    assert_eq!(walk.verdict(), Some(Status::Versioned(RepoStatus::Clean)));
}

#[test]
fn walk_over_repository_root_takes_its_verdict() {
    let mut walk = Walk::new("/w/repo".to_string());
    assert!(walk.observe(Observation::Repository(dirty())).is_empty());
    assert_eq!(walk.verdict(), Some(Status::Versioned(RepoStatus::Dirty)));
}

#[test]
fn walk_with_failed_status_check_goes_on() {
    let mut walk = Walk::new("/w".to_string());
    walk.observe(listing(&["/w/broken", "/w/next"]));
    assert!(walk.observe(Observation::Repository(CheckOutcome::SpawnFailed)).is_empty());
    assert_eq!(pending(&walk), Some("/w/next".to_string()));
    let lines = walk.observe(Observation::Repository(clean()));
    assert_eq!(lines, vec![out("m /w/broken")]);
    assert_eq!(walk.verdict(), Some(Status::Versioned(RepoStatus::Clean)));
}

#[test]
fn walk_writes_the_diagnostic_at_once() {
    let mut walk = Walk::new("/w".to_string());
    walk.observe(listing(&["/w/locked", "/w/repo"]));
    let lines = walk.observe(Observation::Unreadable);
    assert_eq!(lines, vec![err("! unable to read directory /w/locked")]);
    let lines = walk.observe(Observation::Repository(clean()));
    assert_eq!(lines, vec![out("u /w/locked")]);
}

#[test]
fn walk_over_unreadable_root() {
    let mut walk = Walk::new("/w".to_string());
    let lines = walk.observe(Observation::Unreadable);
    assert_eq!(lines, vec![err("! unable to read directory /w")]);
    assert_eq!(walk.verdict(), Some(Status::Untracked));
}

#[test]
fn walk_over_empty_directory_ends_untracked() {
    let mut walk = Walk::new("/w".to_string());
    assert!(walk.observe(listing(&[])).is_empty());
    assert_eq!(walk.verdict(), Some(Status::Untracked));
}

#[test]
fn walk_closes_nested_directories_together() {
    let mut walk = Walk::new("/w".to_string());
    walk.observe(listing(&["/w/a"]));
    walk.observe(listing(&["/w/a/b"]));
    walk.observe(listing(&["/w/a/b/stray", "/w/a/b/repo"]));
    assert!(walk.observe(Observation::NotDirectory).is_empty());
    assert_eq!(pending(&walk), Some("/w/a/b/repo".to_string()));
    let lines = walk.observe(Observation::Repository(dirty()));
    assert_eq!(lines, vec![out("u /w/a/b/stray"), out("m /w/a/b/repo")]);
    assert_eq!(walk.verdict(), Some(Status::Versioned(RepoStatus::Clean)));
}

#[test]
fn finished_walk_takes_nothing_in() {
    let mut walk = Walk::new("/w".to_string());
    walk.observe(Observation::NotDirectory);
    assert!(walk.observe(Observation::Unreadable).is_empty());
    assert!(walk.observe(listing(&["/w/x"])).is_empty());
    assert_eq!(walk.verdict(), Some(Status::Untracked));
    assert_eq!(pending(&walk), None);
}

#[test]
fn walk_agrees_with_classifier() {
    let trees = vec![
        Tree::Plain,
        Tree::Unreadable,
        Tree::Repository(clean()),
        Tree::Repository(dirty()),
        Tree::Directory(vec![]),
        Tree::Directory(vec![entry("/w/only", Tree::Repository(clean()))]),
        Tree::Directory(vec![entry("/w/a", Tree::Plain), entry("/w/b", Tree::Unreadable)]),
        sample(),
    ];
    for tree in &trees {
        let outcome = classify(&"/w".to_string(), tree);
        let (verdict, lines) = replay("/w", tree);
        assert_eq!(verdict, Some(outcome.status));
        assert_eq!(lines, outcome.output);
    }
}

#[test]
fn walk_over_sample_writes_in_order() {
    let (verdict, lines) = replay("/w", &sample());
    assert_eq!(verdict, Some(Status::Versioned(RepoStatus::Clean)));
    assert_eq!(
        lines,
        vec![
            err("! unable to read directory /w/group/locked"),
            out("m /w/group/dirty"),
            out("u /w/group/locked"),
            out("u /w/group/deep"),
            out("u /w/top.txt"),
            out("u /w/bare"),
            out("m /w/broken"),
        ]
    );
}

#[test]
fn walking_twice_gives_the_same() {
    let first = replay("/w", &sample());
    let second = replay("/w", &sample());
    assert_eq!(first, second);
}

#[test]
fn conclusions_by_verdict() {
    let path = "/w".to_string();
    let untracked = conclude(&path, Status::Untracked);
    assert!(!untracked.clean);
    assert_eq!(untracked.output, vec![out("u /w")]);
    let dirty = conclude(&path, Status::Versioned(RepoStatus::Dirty));
    assert!(!dirty.clean);
    assert_eq!(dirty.output, vec![out("m /w")]);
    let clean = conclude(&path, Status::Versioned(RepoStatus::Clean));
    assert!(clean.clean);
    assert!(clean.output.is_empty());
}
