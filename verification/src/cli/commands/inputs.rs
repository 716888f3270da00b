//! Which inputs a scan reads.

use std::path::PathBuf;

use vstd::prelude::*;

verus! {

/// The file-size limit when a negative one is asked for, in bytes.
pub const FALLBACK_MAX_FILE_SIZE: u64 = 25 * 1024 * 1024;

/// What is scanned, as far as the stages of a scan are chosen by it.
#[derive(Debug)]
pub struct InputSpecifierArgs {
    /// The files, directories and local Git repositories to scan
    pub path_inputs: Vec<PathBuf>,
    /// Include detailed Git commit context (author, date, commit hash) for findings
    pub commit_metadata: bool,
}

/// How the contents of files are filtered.
#[derive(Debug)]
pub struct ContentFilteringArgs {
    /// Ignore files larger than this many bytes; nothing where a negative size was asked for
    pub max_file_size: Option<u64>,
    /// If true, do NOT extract archive files
    pub no_extract_archives: bool,
    /// Maximum allowed depth for extracting nested archives
    pub extraction_depth: u8,
}

/// The limit in force for the one that was asked for.
pub open spec fn limit_in_force(asked_for: Option<u64>) -> Option<u64> {
    match asked_for {
        Some(bytes) => Some(bytes),
        None => Some(FALLBACK_MAX_FILE_SIZE),
    }
}

impl ContentFilteringArgs {
    /// The maximum file size in bytes: the one asked for, or the fallback for a negative one.
    pub fn max_file_size_bytes(&self) -> (limit: Option<u64>)
        ensures
            limit == limit_in_force(self.max_file_size),
    {
        match self.max_file_size {
            Some(bytes) => Some(bytes),
            None => Some(FALLBACK_MAX_FILE_SIZE),
        }
    }
}

/// A limit that is asked for is in force as it is, however small or great; where none can be, that
/// of 25 MB is.
pub proof fn law_asked_limits_are_in_force(bytes: u64)
    ensures
        limit_in_force(Some(bytes)) == Some(bytes),
        limit_in_force(None) == Some(26_214_400u64),
{
}

} // verus!
