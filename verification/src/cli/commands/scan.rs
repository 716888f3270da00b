//! How a scan is to be made.

use std::path::PathBuf;

use vstd::prelude::*;

use crate::cli::commands::inputs::{ContentFilteringArgs, InputSpecifierArgs};

verus! {

/// What a scan is asked to do.
#[derive(Debug)]
pub struct ScanArgs {
    /// What to scan.
    pub input_specifier_args: InputSpecifierArgs,
    /// Which contents to leave out.
    pub content_filtering_args: ContentFilteringArgs,
    /// Keep findings that repeat others.
    pub no_dedup: bool,
    /// Leave the validation phase out.
    pub no_validate: bool,
    /// Take the times of the rules.
    pub rule_stats: bool,
    /// How many jobs work at a time.
    pub num_jobs: usize,
    /// Accept certificates that do not check out.
    pub ignore_certs: bool,
    /// Show progress.
    pub use_progress: bool,
}

impl ScanArgs {
    /// The paths to scan.
    pub open spec fn path_inputs(self) -> Seq<PathBuf> {
        self.input_specifier_args.path_inputs@
    }
}

} // verus!
