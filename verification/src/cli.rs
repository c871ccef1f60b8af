//! Command-line settings: the checks on concurrency values and the settings
//! that follow from the arguments or from the interactive answers.
use vstd::prelude::*;
use crate::config::Config;
use crate::error::{AppError, Result};
use crate::number::{decimal, decimal_string, parse_unsigned_upto, parse_usize};
use crate::paths::{join_path, join_path_exec};
use crate::report::OutputFormat;
use crate::text::{chars_of, clone_opt, concat, opt_view, trim, trim_chars};
use crate::tieba::{extract_thread_id, spec_thread_id};

verus! {

/// `Ok(n)` for a decimal `n` in `1..=max`, otherwise the given message.
pub open spec fn spec_parse_bounded(value: Seq<char>, max: nat, message: Seq<char>) -> std::result::Result<nat, Seq<char>> {
    match parse_unsigned_upto(value, usize::MAX as nat) {
        Some(v) => if 1 <= v <= max {
            Ok(v)
        } else {
            Err(message)
        },
        None => Err(message),
    }
}

/// The image download concurrency given on the command line: 1 to 256.
pub fn parse_image_concurrency(value: &str) -> (r: std::result::Result<usize, String>)
    ensures
        match r {
            Ok(n) => spec_parse_bounded(value@, 256, "并发数必须为 1-256"@) == Ok::<nat, Seq<char>>(n as nat),
            Err(m) => spec_parse_bounded(value@, 256, "并发数必须为 1-256"@) == Err::<nat, Seq<char>>(m@),
        },
{
    let chars = chars_of(value);
    match parse_usize(&chars) {
        Some(v) => if 1 <= v && v <= 256 {
            Ok(v)
        } else {
            Err("并发数必须为 1-256".to_owned())
        },
        None => Err("并发数必须为 1-256".to_owned()),
    }
}

/// The page scanning concurrency given on the command line: 1 to 64.
pub fn parse_page_concurrency(value: &str) -> (r: std::result::Result<usize, String>)
    ensures
        match r {
            Ok(n) => spec_parse_bounded(value@, 64, "页面并发数必须为 1-64"@) == Ok::<nat, Seq<char>>(n as nat),
            Err(m) => spec_parse_bounded(value@, 64, "页面并发数必须为 1-64"@) == Err::<nat, Seq<char>>(m@),
        },
{
    let chars = chars_of(value);
    match parse_usize(&chars) {
        Some(v) => if 1 <= v && v <= 64 {
            Ok(v)
        } else {
            Err("页面并发数必须为 1-64".to_owned())
        },
        None => Err("页面并发数必须为 1-64".to_owned()),
    }
}

/// The command-line arguments, with every default already applied.
#[derive(Debug, Clone)]
pub struct Args {
    pub url: Option<String>,
    pub only_author: bool,
    pub output: Option<String>,
    pub concurrency: usize,
    pub page_concurrency: usize,
    pub auto_concurrency: bool,
    pub cookie_file: Option<String>,
    pub retries: u32,
    pub warmup_delay_ms: u64,
    pub cooldown_secs: u64,
    pub browser_login: bool,
    pub chrome_path: Option<String>,
    pub login_timeout_secs: u64,
    pub remember_login: bool,
    pub clear_login: bool,
    pub diagnostic_html_dir: Option<String>,
    pub output_format: OutputFormat,
    pub metadata_only: bool,
}

/// `Downloads/tieba_<id>` under the home directory, or under `.` without one.
pub open spec fn spec_default_download_dir(home: Option<Seq<char>>, thread_id: u64) -> Seq<char> {
    let base = match home {
        Some(h) => h,
        None => "."@,
    };
    join_path(join_path(base, "Downloads"@), "tieba_"@ + decimal(thread_id as nat))
}

/// Where a thread's images go when no directory is given.
pub fn default_download_dir(home: Option<&str>, thread_id: u64) -> (r: String)
    ensures
        r@ == spec_default_download_dir(
            match home {
                Some(h) => Some(h@),
                None => None,
            },
            thread_id,
        ),
{
    let base = match home {
        Some(h) => h,
        None => ".",
    };
    let downloads = join_path_exec(base, "Downloads");
    let id = decimal_string(thread_id);
    let name = concat("tieba_", id.as_str());
    join_path_exec(downloads.as_str(), name.as_str())
}

/// A configuration that takes every setting but the link and the directory
/// from the arguments.
pub open spec fn takes_arguments(c: Config, a: Args) -> bool {
    &&& c.only_author == a.only_author
    &&& c.image_concurrency == a.concurrency
    &&& c.page_concurrency == a.page_concurrency
    &&& c.auto_concurrency == a.auto_concurrency
    &&& opt_view(c.cookie_file) == opt_view(a.cookie_file)
    &&& c.retries == a.retries
    &&& c.warmup_delay_ms == a.warmup_delay_ms
    &&& c.cooldown_secs == a.cooldown_secs
    &&& c.browser_login == a.browser_login
    &&& opt_view(c.chrome_path) == opt_view(a.chrome_path)
    &&& c.login_timeout_secs == a.login_timeout_secs
    &&& c.remember_login == a.remember_login
    &&& c.clear_login == a.clear_login
    &&& opt_view(c.diagnostic_html_dir) == opt_view(a.diagnostic_html_dir)
    &&& c.output_format == a.output_format
    &&& c.metadata_only == a.metadata_only
}

/// The configuration the arguments give when they name a thread: the link
/// must be a thread link, and the directory defaults to
/// `default_download_dir`.  `None` when no link was given: the wizard asks.
pub fn config_from_args(args: &Args, home: Option<&str>) -> (r: Option<Result<Config>>)
    ensures
        r is None <==> args.url is None,
        match r {
            Some(Ok(c)) => {
                &&& args.url matches Some(u) && c.thread_url@ == u@
                &&& spec_thread_id(c.thread_url@) is Some
                &&& c.output_dir@ == match args.output {
                    Some(o) => o@,
                    None => spec_default_download_dir(
                        match home {
                            Some(h) => Some(h@),
                            None => None,
                        },
                        spec_thread_id(c.thread_url@)->0,
                    ),
                }
                &&& takes_arguments(c, *args)
            },
            Some(Err(e)) => {
                &&& args.url matches Some(u) && spec_thread_id(u@) is None
                &&& e@ == crate::error::ErrorView::InvalidThreadUrl(trim(opt_view(args.url)->0))
            },
            None => true,
        },
{
    let url = match &args.url {
        Some(u) => u,
        None => return None,
    };
    let id = match extract_thread_id(url.as_str()) {
        Ok(id) => id,
        Err(e) => return Some(Err(e)),
    };
    let output_dir = match &args.output {
        Some(o) => o.clone(),
        None => default_download_dir(home, id),
    };
    Some(
        Ok(
            Config {
                thread_url: url.clone(),
                only_author: args.only_author,
                output_dir,
                image_concurrency: args.concurrency,
                page_concurrency: args.page_concurrency,
                auto_concurrency: args.auto_concurrency,
                cookie_file: clone_opt(&args.cookie_file),
                retries: args.retries,
                warmup_delay_ms: args.warmup_delay_ms,
                cooldown_secs: args.cooldown_secs,
                browser_login: args.browser_login,
                chrome_path: clone_opt(&args.chrome_path),
                login_timeout_secs: args.login_timeout_secs,
                remember_login: args.remember_login,
                clear_login: args.clear_login,
                diagnostic_html_dir: clone_opt(&args.diagnostic_html_dir),
                output_format: args.output_format,
                metadata_only: args.metadata_only,
            },
        ),
    )
}

/// An image concurrency the wizard accepts: 1 to 256.
pub fn image_concurrency_allowed(value: usize) -> (r: bool)
    ensures
        r == (1 <= value <= 256),
{
    1 <= value && value <= 256
}

/// A page concurrency the wizard accepts: 1 to 64.
pub fn page_concurrency_allowed(value: usize) -> (r: bool)
    ensures
        r == (1 <= value <= 64),
{
    1 <= value && value <= 64
}

/// The answers of the interactive wizard.  `mode` is the chosen item: 0 for
/// the whole thread, 1 for the original poster's posts only.
pub struct WizardAnswers {
    pub url: String,
    pub mode: usize,
    pub output: String,
    pub image_concurrency: usize,
    pub page_concurrency: usize,
    pub auto_concurrency: bool,
    pub browser_login: bool,
    pub cookie: String,
}

/// The configuration the wizard's answers give: the answered settings, the
/// output format and metadata mode of the arguments, no cookie file for a
/// blank answer, and the fixed defaults for everything the wizard does not
/// ask (4 retries, 750 ms warm-up, 30 s cooldown, 600 s login timeout,
/// remembered login).
pub fn config_from_answers(answers: WizardAnswers, args: &Args) -> (c: Config)
    ensures
        c.thread_url@ == answers.url@,
        c.only_author == (answers.mode == 1),
        c.output_dir@ == answers.output@,
        c.image_concurrency == answers.image_concurrency,
        c.page_concurrency == answers.page_concurrency,
        c.auto_concurrency == answers.auto_concurrency,
        opt_view(c.cookie_file) == (if trim(answers.cookie@).len() == 0 {
            None
        } else {
            Some(answers.cookie@)
        }),
        c.retries == 4,
        c.warmup_delay_ms == 750,
        c.cooldown_secs == 30,
        c.browser_login == answers.browser_login,
        c.chrome_path is None,
        c.login_timeout_secs == 600,
        c.remember_login,
        !c.clear_login,
        c.diagnostic_html_dir is None,
        c.output_format == args.output_format,
        c.metadata_only == args.metadata_only,
{
    let cookie_chars = chars_of(answers.cookie.as_str());
    let trimmed = trim_chars(&cookie_chars);
    let cookie_file = if trimmed.len() == 0 {
        None
    } else {
        Some(answers.cookie)
    };
    Config {
        thread_url: answers.url,
        only_author: answers.mode == 1,
        output_dir: answers.output,
        image_concurrency: answers.image_concurrency,
        page_concurrency: answers.page_concurrency,
        auto_concurrency: answers.auto_concurrency,
        cookie_file,
        retries: 4,
        warmup_delay_ms: 750,
        cooldown_secs: 30,
        browser_login: answers.browser_login,
        chrome_path: None,
        login_timeout_secs: 600,
        remember_login: true,
        clear_login: false,
        diagnostic_html_dir: None,
        output_format: args.output_format,
        metadata_only: args.metadata_only,
    }
}

} // verus!
