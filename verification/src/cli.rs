//! The commands and their arguments, as plain values.

use vstd::prelude::*;

verus! {

/// One invocation of the program.
#[derive(Debug)]
pub struct Cli {
    pub command: Commands,
}

/// What the program can be asked to do.
#[derive(Debug)]
pub enum Commands {
    /// Create the repository.
    Init,
    /// Attach a remote to the repository.
    Link(LinkArgs),
    /// Create the repository as a copy of a remote one.
    Clone(CloneArgs),
    /// Track files.
    Add(AddArgs),
    /// Stop tracking a file.
    Remove(RemoveArgs),
    /// Take in the changes made to the tracked files.
    Sync,
    /// Report on the repository.
    Status,
}

#[derive(Debug)]
pub struct LinkArgs {
    /// Where the remote repository is.
    pub url: String,
}

#[derive(Debug)]
pub struct CloneArgs {
    /// Where the remote repository is.
    pub url: String,
}

#[derive(Debug)]
pub struct AddArgs {
    /// The files and directories to track.
    pub files: Vec<String>,
}

#[derive(Debug)]
pub struct RemoveArgs {
    /// The path to stop tracking, relative to the home directory.
    pub file: String,
}

} // verus!
