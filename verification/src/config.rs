//! The settings of one run.
use vstd::prelude::*;
use crate::report::OutputFormat;

verus! {

/// Everything a run needs to know, whether it came from the command line or
/// from the interactive wizard.  Paths are kept as text.
#[derive(Debug, Clone)]
pub struct Config {
    pub thread_url: String,
    pub only_author: bool,
    pub output_dir: String,
    pub image_concurrency: usize,
    pub page_concurrency: usize,
    pub auto_concurrency: bool,
    pub cookie_file: Option<String>,
    pub retries: u32,
    pub warmup_delay_ms: u64,
    pub cooldown_secs: u64,
    pub browser_login: bool,
    pub chrome_path: Option<String>,
    pub login_timeout_secs: u64,
    pub remember_login: bool,
    pub clear_login: bool,
    pub diagnostic_html_dir: Option<String>,
    pub output_format: OutputFormat,
    pub metadata_only: bool,
}

} // verus!
