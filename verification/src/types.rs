//! The settings of one run.

use crate::metadata::DateTime;
use std::path::PathBuf;
use vstd::prelude::*;

verus! {

/// A function that makes a text of date and time.
pub type DatetimeCallback = fn(&DateTime) -> String;

/// What the user asked for.
#[derive(Clone, Debug)]
pub struct Config {
    /// The template for the new names, without the extension.
    pub fmt: String,
    /// Do not append a counter such as `_01` to names that occur more than
    /// once.
    pub no_counter: bool,
    /// Report progress while the files are read.
    pub verbose: bool,
    /// Only say what would happen.
    pub dry_run: bool,
    /// Allow a file that is already there to be replaced.
    pub overwrite: bool,
    /// Copy the files where they would otherwise be moved.
    pub copy: bool,
    /// The files and directories to work on.
    pub paths: Vec<PathBuf>,
}

} // verus!
