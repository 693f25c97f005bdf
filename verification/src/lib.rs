//! Audits a directory tree for work that version control does not hold.
//!
//! A walk goes through the tree depth first and stops at repository roots.
//! A repository is clean or dirty by its status command; a directory with a
//! repository somewhere below it reports its untracked entries and dirty
//! repositories and is itself settled; a directory with none is untracked
//! as a whole.
//!
//! Nothing here touches the disk. [`walk::Walk`] names the path to look at
//! next and takes what was seen there; [`classify::classify`] does the same
//! work on a [`tree::Tree`] recorded beforehand, and [`replay`] proves that
//! the two agree.

pub mod status;
pub mod vcs;
pub mod tree;
pub mod report;
pub mod classify;
pub mod walk;
pub mod replay;
pub mod driver;
pub mod laws;
