//! Fetching thread pages: what each response means, when to try again and
//! how long to wait, which pages each batch of a scan asks for, and the
//! page counts of a run.
use vstd::prelude::*;
use crate::error::{spec_requires_browser_login, AppError, ErrorView, Result};
use crate::http::{is_refusal, is_success, status_display, status_text};
use crate::number::{decimal, decimal_string, parse_u64, parse_u64_spec};
use crate::parser::{
    api_total_pages_text, looks_like_client_rendered_shell, looks_like_verification,
    parse_api_page_text, records_view, spec_api_total_pages_text,
    spec_looks_like_client_rendered_shell, spec_looks_like_verification, spec_parse_api_page_text,
    spec_total_pages, total_pages, ImageRecord, RecordView,
};
use crate::state::{ItemState, Timestamp};
use crate::text::{chars_of, concat, opt_view};

verus! {

/// `2^min(attempt, 6)`: the backoff doubles up to six times.
pub open spec fn doubling(attempt: u32) -> nat {
    if attempt == 0 {
        1
    } else if attempt == 1 {
        2
    } else if attempt == 2 {
        4
    } else if attempt == 3 {
        8
    } else if attempt == 4 {
        16
    } else if attempt == 5 {
        32
    } else {
        64
    }
}

/// The wait before the next attempt: `base * 2^min(attempt, 6) + attempt * step`
/// milliseconds.
pub open spec fn backoff_ms(attempt: u32, base: nat, step: nat) -> nat {
    base * doubling(attempt) + (attempt as nat) * step
}

/// `backoff_ms` in milliseconds.
pub fn backoff(attempt: u32, base: u16, step: u16) -> (r: u64)
    ensures
        r == backoff_ms(attempt, base as nat, step as nat),
{
    let factor: u64 = if attempt == 0 {
        1
    } else if attempt == 1 {
        2
    } else if attempt == 2 {
        4
    } else if attempt == 3 {
        8
    } else if attempt == 4 {
        16
    } else if attempt == 5 {
        32
    } else {
        64
    };
    assert(attempt * step <= 0xffff_ffff * 0xffff) by (nonlinear_arith)
        requires
            attempt <= 0xffff_ffff,
            step <= 0xffff,
    ;
    (base as u64) * factor + (attempt as u64) * (step as u64)
}

/// What a page response means.
pub enum PageVerdict {
    /// The page is usable.
    Accept,
    /// Stop: this failure is final.
    Fail(ErrorView),
    /// This attempt failed with the given message; another may succeed.
    Retry(Seq<char>),
}

/// What a response to a page request means, read in this order: a security
/// check or captcha page stops the run; a `2xx` page is usable unless it is a
/// shell that only a browser can render; `403` and `429` stop with the wait
/// the server asked for (`Retry-After`, else the configured cooldown); any
/// other status is worth another attempt.
pub open spec fn page_verdict(
    status: u16,
    retry_after: Option<Seq<char>>,
    body: Seq<char>,
    cooldown_secs: u64,
) -> PageVerdict {
    if spec_looks_like_verification(body) {
        PageVerdict::Fail(ErrorView::Verification)
    } else if is_success(status) {
        if spec_looks_like_client_rendered_shell(body) {
            PageVerdict::Fail(ErrorView::ClientRenderedPage)
        } else {
            PageVerdict::Accept
        }
    } else if is_refusal(status) {
        PageVerdict::Fail(
            ErrorView::RateLimited {
                status,
                retry_after_secs: match retry_after {
                    Some(v) => match parse_u64_spec(v) {
                        Some(n) => n,
                        None => cooldown_secs,
                    },
                    None => cooldown_secs,
                },
            },
        )
    } else {
        PageVerdict::Retry("HTTP "@ + status_display(status))
    }
}

/// What to do after an attempt to fetch a page.
pub enum FetchAction {
    /// The fetch is over, with the page's HTML or the failure.
    Done(Result<String>),
    /// Wait this many milliseconds, then request the page again.
    Wait(u64),
}

/// A view of a fetch action.
pub enum FetchActionView {
    Page(Seq<char>),
    Failed(ErrorView),
    Wait(u64),
}

impl View for FetchAction {
    type V = FetchActionView;

    open spec fn view(&self) -> FetchActionView {
        match self {
            FetchAction::Done(Ok(s)) => FetchActionView::Page(s@),
            FetchAction::Done(Err(e)) => FetchActionView::Failed(e@),
            FetchAction::Wait(ms) => FetchActionView::Wait(*ms),
        }
    }
}

/// The attempts at one page: at most `retries + 1` requests, with a growing
/// wait (300 ms base, 73 ms step) after each one that failed for a reason
/// that may pass.
pub struct PageFetch {
    pub attempt: u32,
    pub retries: u32,
    pub cooldown_secs: u64,
}

impl PageFetch {
    /// The attempt counter never passes the number of retries.
    pub open spec fn wf(&self) -> bool {
        self.attempt <= self.retries
    }

    /// Before the first request.
    pub fn new(retries: u32, cooldown_secs: u64) -> (r: PageFetch)
        ensures
            r.wf(),
            r.attempt == 0,
            r.retries == retries,
            r.cooldown_secs == cooldown_secs,
    {
        PageFetch { attempt: 0, retries, cooldown_secs }
    }

    /// An attempt failed with this message: wait and try again while retries
    /// remain, else give up with it.
    pub fn on_failure(&mut self, message: String) -> (r: FetchAction)
        requires
            old(self).wf(),
        ensures
            final(self).wf(),
            final(self).retries == old(self).retries,
            final(self).cooldown_secs == old(self).cooldown_secs,
            old(self).attempt < old(self).retries ==> {
                &&& r@ == FetchActionView::Wait(backoff_ms(old(self).attempt, 300, 73) as u64)
                &&& final(self).attempt == old(self).attempt + 1
            },
            old(self).attempt == old(self).retries ==> {
                &&& r@ == FetchActionView::Failed(ErrorView::PageAccess(message@))
                &&& final(self).attempt == old(self).attempt
            },
    {
        if self.attempt < self.retries {
            let wait = backoff(self.attempt, 300, 73);
            self.attempt = self.attempt + 1;
            FetchAction::Wait(wait)
        } else {
            FetchAction::Done(Err(AppError::PageAccess(message)))
        }
    }

    /// A response arrived, with its status, its `Retry-After` header when it
    /// is readable, and its body.  See `page_verdict`.
    pub fn on_response(&mut self, status: u16, retry_after: Option<String>, body: String) -> (r: FetchAction)
        requires
            old(self).wf(),
        ensures
            final(self).wf(),
            final(self).retries == old(self).retries,
            final(self).cooldown_secs == old(self).cooldown_secs,
            match page_verdict(status, opt_view(retry_after), body@, old(self).cooldown_secs) {
                PageVerdict::Accept => r@ == FetchActionView::Page(body@) && final(self).attempt == old(
                    self,
                ).attempt,
                PageVerdict::Fail(e) => r@ == FetchActionView::Failed(e) && final(self).attempt == old(
                    self,
                ).attempt,
                PageVerdict::Retry(m) => if old(self).attempt < old(self).retries {
                    r@ == FetchActionView::Wait(backoff_ms(old(self).attempt, 300, 73) as u64)
                        && final(self).attempt == old(self).attempt + 1
                } else {
                    r@ == FetchActionView::Failed(ErrorView::PageAccess(m)) && final(self).attempt == old(
                        self,
                    ).attempt
                },
            },
    {
        if looks_like_verification(body.as_str()) {
            return FetchAction::Done(Err(AppError::Verification));
        }
        if 200 <= status && status <= 299 {
            if looks_like_client_rendered_shell(body.as_str()) {
                return FetchAction::Done(Err(AppError::ClientRenderedPage));
            }
            return FetchAction::Done(Ok(body));
        }
        if status == 403 || status == 429 {
            let secs = match &retry_after {
                Some(v) => {
                    let c = chars_of(v.as_str());
                    match parse_u64(&c) {
                        Some(n) => n,
                        None => self.cooldown_secs,
                    }
                },
                None => self.cooldown_secs,
            };
            return FetchAction::Done(Err(AppError::RateLimited { status, retry_after_secs: secs }));
        }
        let text = status_text(status);
        let message = concat("HTTP ", text.as_str());
        self.on_failure(message)
    }
}

/// The pages of a scan after the first, asked for in batches: one page at a
/// time at first when the concurrency adapts, doubling after each batch up
/// to the page concurrency; the whole page concurrency at once otherwise.
pub struct PageScan {
    pub next_page: usize,
    pub pages: usize,
    pub effective: usize,
    pub limit: usize,
    pub auto: bool,
}

impl PageScan {
    /// The next page is never past the end, and each batch asks for at least one page.
    pub open spec fn wf(&self) -> bool {
        &&& 2 <= self.next_page <= self.pages + 1
        &&& self.pages < usize::MAX
        &&& 1 <= self.effective
        &&& self.auto ==> self.effective <= self.limit || self.effective == 1
    }

    /// A scan of pages `2..=pages`, the first page being in hand.
    pub fn new(pages: usize, page_concurrency: usize, auto: bool) -> (r: PageScan)
        requires
            auto || page_concurrency >= 1,
            1 <= pages < usize::MAX,
        ensures
            r.wf(),
            r.next_page == 2,
            r.pages == pages,
            r.limit == page_concurrency,
            r.auto == auto,
            r.effective == (if auto {
                1
            } else {
                page_concurrency
            }),
    {
        PageScan {
            next_page: 2,
            pages,
            effective: if auto {
                1
            } else {
                page_concurrency
            },
            limit: page_concurrency,
            auto,
        }
    }

    /// The pages `start..end` of the next batch: `effective` pages from the
    /// next one, no further than the last; `None` once every page was asked for.
    pub fn next_batch(&self) -> (r: Option<(usize, usize)>)
        requires
            self.wf(),
        ensures
            r is None <==> self.next_page > self.pages,
            r matches Some((start, end)) ==> {
                &&& start == self.next_page
                &&& end == if self.next_page + self.effective <= self.pages + 1 {
                    self.next_page + self.effective
                } else {
                    self.pages + 1
                }
                &&& start < end <= self.pages + 1
            },
    {
        if self.next_page > self.pages {
            return None;
        }
        let room = self.pages + 1 - self.next_page;
        let end = if self.effective <= room {
            self.next_page + self.effective
        } else {
            self.pages + 1
        };
        Some((self.next_page, end))
    }

    /// A batch ending before page `end` is done.  When the concurrency adapts
    /// and is below the limit, it doubles (to the limit at most) and the
    /// result is `true`: wait the warm-up delay before the next batch.
    pub fn finish_batch(&mut self, end: usize) -> (warm_up: bool)
        requires
            old(self).wf(),
            old(self).next_page < end <= old(self).pages + 1,
        ensures
            final(self).wf(),
            final(self).next_page == end,
            final(self).pages == old(self).pages,
            final(self).limit == old(self).limit,
            final(self).auto == old(self).auto,
            warm_up == (old(self).auto && old(self).effective < old(self).limit),
            warm_up ==> final(self).effective == (if 2 * old(self).effective <= old(self).limit {
                2 * old(self).effective
            } else {
                old(self).limit as int
            }),
            !warm_up ==> final(self).effective == old(self).effective,
    {
        self.next_page = end;
        if self.auto && self.effective < self.limit {
            self.effective = if self.effective <= self.limit / 2 {
                self.effective * 2
            } else {
                self.limit
            };
            true
        } else {
            false
        }
    }
}

/// A run that went through the browser has one captured API response per
/// page, or it stops naming how many it has.
pub fn check_captured_pages(captured: usize, pages: usize) -> (r: Result<()>)
    ensures
        r is Ok <==> captured == pages,
        r matches Err(e) ==> e@ == ErrorView::PageAccess(
            "浏览器仅捕获到 "@ + decimal(captured as nat) + "/"@ + decimal(pages as nat) + " 页 API 响应"@,
        ),
{
    if captured == pages {
        return Ok(());
    }
    let a = concat("浏览器仅捕获到 ", decimal_string(captured as u64).as_str());
    let b = concat(a.as_str(), "/");
    let c = concat(b.as_str(), decimal_string(pages as u64).as_str());
    Err(AppError::PageAccess(concat(c.as_str(), " 页 API 响应")))
}

/// The records of every captured API response text, the `i`-th being page
/// `i + 1`; the first response that is no JSON or reports an error stops the
/// whole, the texts after it unread.
pub fn parse_api_pages(bodies: &[String]) -> (r: Result<Vec<Vec<ImageRecord>>>)
    requires
        bodies@.len() < usize::MAX,
    ensures
        match r {
            Ok(pages) => {
                &&& pages@.len() == bodies@.len()
                &&& forall|i: int|
                    0 <= i < bodies@.len() ==> spec_parse_api_page_text(bodies@[i]@, (i + 1) as usize) == Ok::<
                        Seq<RecordView>,
                        ErrorView,
                    >(records_view(#[trigger] pages@[i]@))
            },
            Err(e) => exists|i: int|
                {
                    &&& 0 <= i < bodies@.len()
                    &&& forall|j: int| 0 <= j < i ==> #[trigger] spec_parse_api_page_text(bodies@[j]@, (j + 1) as usize) is Ok
                    &&& spec_parse_api_page_text(bodies@[i]@, (i + 1) as usize) == Err::<Seq<RecordView>, ErrorView>(e@)
                },
        },
{
    let mut pages: Vec<Vec<ImageRecord>> = Vec::new();
    let mut i: usize = 0;
    while i < bodies.len()
        invariant
            i <= bodies@.len(),
            bodies@.len() < usize::MAX,
            pages@.len() == i,
            forall|k: int|
                0 <= k < i ==> spec_parse_api_page_text(bodies@[k]@, (k + 1) as usize) == Ok::<
                    Seq<RecordView>,
                    ErrorView,
                >(records_view(#[trigger] pages@[k]@)),
        decreases bodies@.len() - i,
    {
        match parse_api_page_text(bodies[i].as_str(), i + 1) {
            Ok(records) => {
                pages.push(records);
            },
            Err(e) => {
                assert forall|j: int| 0 <= j < i implies #[trigger] spec_parse_api_page_text(bodies@[j]@, (j + 1) as usize) is Ok by {
                    assert(spec_parse_api_page_text(bodies@[j]@, (j + 1) as usize) == Ok::<Seq<RecordView>, ErrorView>(records_view(pages@[j]@)));
                }
                return Err(e);
            },
        }
        i = i + 1;
    }
    Ok(pages)
}

/// A failed first page opens the browser only when the run allows it and only
/// a browser session can get past the failure.
pub fn should_open_browser(browser_login: bool, error: &AppError) -> (r: bool)
    ensures
        r == (browser_login && spec_requires_browser_login(*error)),
{
    browser_login && error.requires_browser_login()
}

/// The page count of a thread: from the first captured API response when
/// the browser captured one, else from the first page's HTML.
pub fn first_page_count(first_api_page: Option<&str>, first_html: &str) -> (r: Result<usize>)
    ensures
        match first_api_page {
            Some(body) => match r {
                Ok(n) => spec_api_total_pages_text(body@) == Ok::<usize, ErrorView>(n),
                Err(e) => spec_api_total_pages_text(body@) == Err::<usize, ErrorView>(e@),
            },
            None => r == Ok::<usize, AppError>(spec_total_pages(first_html@)),
        },
{
    match first_api_page {
        Some(body) => api_total_pages_text(body),
        None => Ok(total_pages(first_html)),
    }
}

/// The state every image starts from: pending, keyed by its file name, and
/// stamped with `now`.
pub fn initial_states(records: &[ImageRecord], now: Timestamp) -> (r: Vec<(String, ItemState)>)
    ensures
        r@.len() == records@.len(),
        forall|i: int| 0 <= i < r@.len() ==> (#[trigger] r@[i]).1.updated_at == now,
        forall|i: int| 0 <= i < r@.len() ==> (#[trigger] r@[i]).0@ == records@[i].target_file@
            && r@[i].1.status == crate::state::ItemStatus::Pending && r@[i].1.downloaded_bytes == 0
            && r@[i].1.retries == 0 && r@[i].1.last_error is None && r@[i].1.total_bytes is None,
{
    let mut out: Vec<(String, ItemState)> = Vec::new();
    let mut i: usize = 0;
    while i < records.len()
        invariant
            i <= records@.len(),
            out@.len() == i,
            forall|k: int| 0 <= k < i ==> (#[trigger] out@[k]).1.updated_at == now,
            forall|k: int| 0 <= k < i ==> (#[trigger] out@[k]).0@ == records@[k].target_file@
                && out@[k].1.status == crate::state::ItemStatus::Pending && out@[k].1.downloaded_bytes == 0
                && out@[k].1.retries == 0 && out@[k].1.last_error is None && out@[k].1.total_bytes is None,
        decreases records@.len() - i,
    {
        out.push((records[i].target_file.clone(), ItemState::new(now)));
        i = i + 1;
    }
    out
}

} // verus!
