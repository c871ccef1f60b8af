//! The final report of a run: its format, and the figures it gives.
use vstd::prelude::*;

verus! {

/// How the final result is written: lines for a reader, or one JSON object.
#[derive(Debug, Clone, Copy, PartialEq, Eq, Structural)]
pub enum OutputFormat {
    Text,
    Json,
}

impl Default for OutputFormat {
    fn default() -> (r: OutputFormat)
        ensures
            r == OutputFormat::Text,
    {
        OutputFormat::Text
    }
}

/// The figures of a finished run.
#[derive(Debug, Clone)]
pub struct RunSummary {
    pub post_id: String,
    pub output_dir: String,
    pub discovered: usize,
    pub completed: usize,
    pub skipped: usize,
    pub failed: usize,
    pub browser_verification_used: bool,
}

} // verus!
