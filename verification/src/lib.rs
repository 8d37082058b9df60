//! Verb invocation and execution-template engine for a terminal file
//! navigator: placeholder substitution, argument validation, path
//! resolution and shell-safe command construction.
use vstd::prelude::*;

pub mod help_content;
mod home;
pub mod invocation;
pub mod path;
pub mod rex;
pub mod repmap;
pub mod shell;
pub mod strx;
pub mod template;
pub mod verb;

verus! {

/// A selected entry either is a directory or a plain file; some verbs
/// apply only to files.
#[derive(PartialEq, Eq, Structural, Clone, Copy, Debug)]
pub enum SelectionType {
    Any,
    File,
}

} // verus!
