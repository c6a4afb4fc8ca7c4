//! The options that every command of the tool shares.

use crate::error::Error;
use vstd::prelude::*;

verus! {

/// The options given on the command line before the command.
#[derive(Clone, Debug, PartialEq, Eq)]
pub struct Args {
    /// Logging level.
    pub log_level: String,
    /// Verbose mode.
    pub verbose: bool,
    /// Quiet mode.
    pub quiet: bool,
    /// Overwrite existing files.
    pub force: bool,
    /// The cache directory, where one is given or was found.
    pub cache_dir: Option<String>,
    /// Caching is switched off.
    pub no_cache: bool,
    /// The address of the schema catalog.
    pub catalog_url: String,
}

impl Args {
    /// Whether output may be written to a path, given what stands there now: never
    /// onto a directory, and onto a file only where overwriting is forced.
    pub fn check_output_file(&self, is_dir: bool, is_file: bool) -> (r: Result<(), Error>)
        ensures
            r == if is_dir || (is_file && !self.force) {
                Err::<(), Error>(Error::Conflict)
            } else {
                Ok::<(), Error>(())
            },
    {
        if is_dir {
            Err(Error::Conflict)
        } else if is_file && !self.force {
            Err(Error::Conflict)
        } else {
            Ok(())
        }
    }
}

} // verus!
