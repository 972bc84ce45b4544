//! Command-line arguments and their validation.

use vstd::prelude::*;
use crate::paths::opt_view;

verus! {

/// Cortinizer - A tool to generate tango cortinas from MP3 and FLAC files
#[derive(Debug, Clone)]
pub struct Args {
    /// Length of the cortina in seconds
    pub length: u32,
    /// Input paths (files or folders) to process
    pub paths: Vec<String>,
    /// Number of parallel jobs (default: number of CPU cores)
    pub jobs: usize,
    /// Enable verbose logging
    pub verbose: bool,
}

impl Args {
    /// The message with which parsed arguments are refused, if they are: a zero
    /// length first, then an empty list of input paths.
    pub fn validation_error(&self) -> (message: Option<String>)
        ensures
            self.length == 0 ==> opt_view(message) == Some("Error: Length must be greater than 0"@),
            self.length != 0 && self.paths@.len() == 0 ==> opt_view(message) == Some(
                "Error: At least one input path is required"@,
            ),
            self.length != 0 && self.paths@.len() != 0 ==> message is None,
    {
        if self.length == 0 {
            return Some(String::from_str("Error: Length must be greater than 0"));
        }
        if self.paths.len() == 0 {
            return Some(String::from_str("Error: At least one input path is required"));
        }
        None
    }
}

} // verus!
