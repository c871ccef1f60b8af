//! Browser-assisted login through a dedicated Chrome profile and the Chrome
//! DevTools Protocol: which browser to start and how, which page to attach
//! to, which replies answer a command, when the thread page is ready, which
//! cookies to keep, and how the thread's page API responses are captured.
use vstd::prelude::*;
use crate::cookie::{is_baidu_domain, spec_is_baidu_domain};
use crate::error::{AppError, ErrorView, Result};
use crate::json::{
    get_opt, items_of, json_get, json_parse_of, parse_json_text, take_member, json_items, json_path, json_str, json_text, json_u64, opt,
    str_of, to_json_text, u64_of, JsonValue,
};
use crate::number::{decimal, decimal_string, parse_u16, parse_unsigned_upto};
use crate::sorted::{lemma_insert_sorted_members, header_exec, header_of, insert_sorted, insert_sorted_exec, pairs_view, strictly_sorted, lemma_insert_sorted_keeps_order};
use crate::text::{
    chars_of, concat, contains, contains_str, equals_str, line_ranges, lines, opt_view, split,
    string_of, string_of_range,
};

verus! {

/// What a completed browser login hands back.
pub struct BrowserLoginResult {
    pub cookie: String,
    pub rendered_html: String,
    pub resources: Vec<String>,
    pub page_api_requests: Vec<String>,
    pub page_api_responses: Vec<String>,
}

// ---------------------------------------------------------------------------
// Finding and starting the browser
// ---------------------------------------------------------------------------

/// A browser executable and whether it exists as a regular file.
pub struct ChromeProbe {
    pub path: String,
    pub is_file: bool,
}

/// The standard install locations, tried in this order.
pub open spec fn chrome_locations() -> Seq<Seq<char>> {
    seq![
        "/Applications/Google Chrome.app/Contents/MacOS/Google Chrome"@,
        "/Applications/Chromium.app/Contents/MacOS/Chromium"@,
        "/Applications/Brave Browser.app/Contents/MacOS/Brave Browser"@,
    ]
}

/// The standard install locations of Chrome, Chromium and Brave.
pub fn chrome_candidates() -> (r: Vec<String>)
    ensures
        r@.len() == chrome_locations().len(),
        forall|i: int| 0 <= i < r@.len() ==> (#[trigger] r@[i])@ == chrome_locations()[i],
{
    let mut r: Vec<String> = Vec::new();
    r.push("/Applications/Google Chrome.app/Contents/MacOS/Google Chrome".to_owned());
    r.push("/Applications/Chromium.app/Contents/MacOS/Chromium".to_owned());
    r.push("/Applications/Brave Browser.app/Contents/MacOS/Brave Browser".to_owned());
    r
}

/// The first existing executable among `probes[i..]`.
pub open spec fn first_installed(probes: Seq<ChromeProbe>, i: int) -> Option<Seq<char>>
    decreases probes.len() - i,
{
    if i < 0 || i >= probes.len() {
        None
    } else if probes[i].is_file {
        Some(probes[i].path@)
    } else {
        first_installed(probes, i + 1)
    }
}

/// The browser to start: the given one, which must exist, or else the first
/// installed standard one.  `Ok` carries its path, `Err` the `BrowserLogin` message.
pub open spec fn spec_find_chrome(custom: Option<ChromeProbe>, installed: Seq<ChromeProbe>) -> std::result::Result<Seq<char>, Seq<char>> {
    match custom {
        Some(p) => if p.is_file {
            Ok(p.path@)
        } else {
            Err("指定的 Chrome 不存在："@ + p.path@)
        },
        None => match first_installed(installed, 0) {
            Some(path) => Ok(path),
            None => Err("未找到 Chrome、Chromium 或 Brave"@),
        },
    }
}

/// Chooses the browser executable (see `spec_find_chrome`).
pub fn find_chrome(custom: Option<ChromeProbe>, installed: &[ChromeProbe]) -> (r: Result<String>)
    ensures
        match r {
            Ok(p) => spec_find_chrome(custom, installed@) == Ok::<Seq<char>, Seq<char>>(p@),
            Err(e) => e matches AppError::BrowserLogin(m) && spec_find_chrome(custom, installed@)
                == Err::<Seq<char>, Seq<char>>(m@),
        },
{
    match custom {
        Some(p) => {
            if p.is_file {
                Ok(p.path)
            } else {
                Err(AppError::BrowserLogin(concat("指定的 Chrome 不存在：", p.path.as_str())))
            }
        },
        None => {
            let mut i: usize = 0;
            while i < installed.len()
                invariant
                    i <= installed@.len(),
                    custom is None,
                    first_installed(installed@, 0) == first_installed(installed@, i as int),
                decreases installed@.len() - i,
            {
                if installed[i].is_file {
                    let p = installed[i].path.clone();
                    assert(first_installed(installed@, i as int) == Some(installed@[i as int].path@));
                    assert(p@ == installed@[i as int].path@);
                    return Ok(p);
                }
                i = i + 1;
            }
            Err(AppError::BrowserLogin("未找到 Chrome、Chromium 或 Brave".to_owned()))
        },
    }
}

/// The dedicated profile directory under the home directory (`.` without one).
pub open spec fn spec_profile_dir(home: Option<Seq<char>>) -> Seq<char> {
    crate::paths::join_path(
        match home {
            Some(h) => h,
            None => "."@,
        },
        "Library/Application Support/tieba-image-downloader/chrome-profile"@,
    )
}

/// The dedicated Chrome profile directory.
pub fn default_profile_dir(home: Option<&str>) -> (r: String)
    ensures
        r@ == spec_profile_dir(
            match home {
                Some(h) => Some(h@),
                None => None,
            },
        ),
{
    let base = match home {
        Some(h) => h,
        None => ".",
    };
    crate::paths::join_path_exec(base, "Library/Application Support/tieba-image-downloader/chrome-profile")
}

/// The command-line arguments Chrome is started with.
pub open spec fn spec_launch_args(profile: Seq<char>, thread_url: Seq<char>) -> Seq<Seq<char>> {
    seq![
        "--remote-debugging-address=127.0.0.1"@,
        "--remote-debugging-port=0"@,
        "--user-data-dir="@ + profile,
        "--no-first-run"@,
        "--no-default-browser-check"@,
        "--new-window"@,
        thread_url,
    ]
}

/// The arguments that start Chrome with a local debugging port, the dedicated
/// profile, and the thread in a new window.
pub fn chrome_launch_args(profile: &str, thread_url: &str) -> (r: Vec<String>)
    ensures
        r@.len() == spec_launch_args(profile@, thread_url@).len(),
        forall|i: int| 0 <= i < r@.len() ==> (#[trigger] r@[i])@ == spec_launch_args(profile@, thread_url@)[i],
{
    let mut r: Vec<String> = Vec::new();
    r.push("--remote-debugging-address=127.0.0.1".to_owned());
    r.push("--remote-debugging-port=0".to_owned());
    r.push(concat("--user-data-dir=", profile));
    r.push("--no-first-run".to_owned());
    r.push("--no-default-browser-check".to_owned());
    r.push("--new-window".to_owned());
    r.push(thread_url.to_owned());
    r
}

/// The debugging port Chrome writes as the first line of `DevToolsActivePort`.
pub open spec fn spec_debug_port(content: Seq<char>) -> Option<u16> {
    let ls = lines(content);
    if ls.len() == 0 {
        None
    } else {
        match parse_unsigned_upto(ls[0], u16::MAX as nat) {
            Some(v) => Some(v as u16),
            None => None,
        }
    }
}

/// Reads the debugging port from the contents of `DevToolsActivePort`.
pub fn parse_debug_port(content: &str) -> (r: Option<u16>)
    ensures
        r == spec_debug_port(content@),
{
    let chars = chars_of(content);
    let ranges = line_ranges(&chars);
    if ranges.len() == 0 {
        return None;
    }
    let (a, b) = ranges[0];
    let first = crate::text::chars_range(&chars, a, b);
    match parse_u16(&first) {
        Some(v) => Some(v),
        None => None,
    }
}

// ---------------------------------------------------------------------------
// Attaching to the thread page
// ---------------------------------------------------------------------------

/// One entry of Chrome's `/json/list`.
pub struct Target {
    pub kind: String,
    pub url: String,
    pub websocket_url: Option<String>,
}

/// A page showing Tieba or the thread itself.
pub open spec fn is_thread_target(t: Target, thread_url: Seq<char>) -> bool {
    t.kind@ == "page"@ && (contains(t.url@, "tieba.baidu.com"@) || t.url@ == thread_url)
}

/// The first thread page at or after `i`.
pub open spec fn first_thread_target(targets: Seq<Target>, thread_url: Seq<char>, i: int) -> Option<Target>
    decreases targets.len() - i,
{
    if i < 0 || i >= targets.len() {
        None
    } else if is_thread_target(targets[i], thread_url) {
        Some(targets[i])
    } else {
        first_thread_target(targets, thread_url, i + 1)
    }
}

/// The debugger address of the first thread page, if that page has one.
pub open spec fn spec_page_target(targets: Seq<Target>, thread_url: Seq<char>) -> Option<Seq<char>> {
    match first_thread_target(targets, thread_url, 0) {
        Some(t) => match t.websocket_url {
            Some(w) => Some(w@),
            None => None,
        },
        None => None,
    }
}

/// Picks the WebSocket debugger address of the thread page.
pub fn select_page_target(targets: &[Target], thread_url: &str) -> (r: Option<String>)
    ensures
        match r {
            Some(w) => spec_page_target(targets@, thread_url@) == Some(w@),
            None => spec_page_target(targets@, thread_url@) is None,
        },
{
    let wanted = chars_of(thread_url);
    let mut i: usize = 0;
    while i < targets.len()
        invariant
            i <= targets@.len(),
            wanted@ == thread_url@,
            first_thread_target(targets@, thread_url@, 0) == first_thread_target(
                targets@,
                thread_url@,
                i as int,
            ),
        decreases targets@.len() - i,
    {
        let t = &targets[i];
        let kind = chars_of(t.kind.as_str());
        let url = chars_of(t.url.as_str());
        if equals_str(&kind, "page") && (contains_str(&url, "tieba.baidu.com")
            || crate::text::same_chars(&url, &wanted)) {
            return match &t.websocket_url {
                Some(w) => Some(w.clone()),
                None => None,
            };
        }
        i = i + 1;
    }
    None
}

// ---------------------------------------------------------------------------
// Replies to DevTools commands
// ---------------------------------------------------------------------------

/// What a DevTools message means for the command with a given id.
pub enum CdpReply {
    /// Another message; keep waiting.
    Other,
    /// The command failed.
    Failed(AppError),
    /// The command's result (`null` where the reply has none).
    Done(JsonValue),
}

/// The message of a failed command.
pub open spec fn cdp_error_message(method: Seq<char>, error: JsonValue) -> Seq<char> {
    "CDP "@ + method + ": "@ + json_text(error)
}

/// Reads the text of a DevTools message while waiting for the reply to
/// command `id`: a text that is no JSON fails with the parser's message.
pub fn cdp_reply(id: u64, method: &str, frame: &str) -> (r: Result<CdpReply>)
    ensures
        match json_parse_of(frame@) {
            Err(m) => r matches Err(e) && e@ == ErrorView::Json(m),
            Ok(message) => r matches Ok(reply) && {
                &&& json_u64(json_get(message, "id"@)) != Some(id) ==> reply is Other
                &&& json_u64(json_get(message, "id"@)) == Some(id) ==> match json_get(message, "error"@) {
                    Some(e) => reply matches CdpReply::Failed(f) && f@ == ErrorView::BrowserLogin(
                        cdp_error_message(method@, e),
                    ),
                    None => reply matches CdpReply::Done(res) && res == match json_get(message, "result"@) {
                        Some(x) => x,
                        None => JsonValue::Null,
                    },
                }
            },
        },
{
    let message = match parse_json_text(frame) {
        Ok(v) => v,
        Err(m) => return Err(AppError::Json(m)),
    };
    if u64_of(message.get("id")) != Some(id) {
        return Ok(CdpReply::Other);
    }
    match message.get("error") {
        Some(e) => {
            let text = to_json_text(e);
            let a = concat("CDP ", method);
            let b = concat(a.as_str(), ": ");
            return Ok(CdpReply::Failed(AppError::BrowserLogin(concat(b.as_str(), text.as_str()))));
        },
        None => {},
    }
    match take_member(message, "result") {
        Some(x) => Ok(CdpReply::Done(x)),
        None => Ok(CdpReply::Done(JsonValue::Null)),
    }
}

// ---------------------------------------------------------------------------
// The thread page and its cookies
// ---------------------------------------------------------------------------

/// The string at `keys` inside `v`, or empty (`unwrap_or_default`).
pub open spec fn str_at_or_empty(v: Option<JsonValue>, keys: Seq<Seq<char>>) -> Seq<char> {
    match json_str(json_path(v, keys)) {
        Some(s) => s,
        None => Seq::empty(),
    }
}

/// The thread page has loaded without a login or verification screen: its
/// address is a thread address and its title is non-empty and names neither.
pub open spec fn spec_page_ready(title: Seq<char>, url: Seq<char>) -> bool {
    contains(url, "tieba.baidu.com/p/"@) && title.len() > 0 && !contains(title, "安全验证"@) && !contains(
        title,
        "登录"@,
    )
}

/// Whether the reply to `Runtime.evaluate` of `{title, url, ready}` shows a
/// ready thread page.
pub fn login_page_ready(state: &JsonValue) -> (r: bool)
    ensures
        r == spec_page_ready(
            str_at_or_empty(Some(*state), seq!["result"@, "value"@, "title"@]),
            str_at_or_empty(Some(*state), seq!["result"@, "value"@, "url"@]),
        ),
{
    let page = get_opt(state.get("result"), "value");
    let title = match str_of(get_opt(page, "title")) {
        Some(s) => chars_of(s),
        None => Vec::new(),
    };
    let url = match str_of(get_opt(page, "url")) {
        Some(s) => chars_of(s),
        None => Vec::new(),
    };
    proof {
        reveal_with_fuel(json_path, 4);
    }
    contains_str(&url, "tieba.baidu.com/p/") && title.len() > 0 && !contains_str(&title, "安全验证")
        && !contains_str(&title, "登录")
}

/// One cookie of `Network.getCookies` kept for the session: a Baidu domain, a name and a value.
pub open spec fn cdp_cookie_entry(c: JsonValue) -> Option<(Seq<char>, Seq<char>)> {
    match json_str(json_get(c, "domain"@)) {
        Some(d) => if spec_is_baidu_domain(d) {
            match (json_str(json_get(c, "name"@)), json_str(json_get(c, "value"@))) {
                (Some(n), Some(v)) => Some((n, v)),
                _ => None,
            }
        } else {
            None
        },
        None => None,
    }
}

/// The kept cookies of the first `n` entries, sorted by name, the first of each name winning.
pub open spec fn cdp_cookies(items: Seq<JsonValue>, n: int) -> Seq<(Seq<char>, Seq<char>)>
    decreases n,
{
    if n <= 0 || n > items.len() {
        Seq::empty()
    } else {
        let acc = cdp_cookies(items, n - 1);
        match cdp_cookie_entry(items[n - 1]) {
            Some((name, value)) => insert_sorted(acc, name, value, false),
            None => acc,
        }
    }
}

/// The `Cookie` header of the Baidu cookies in a `Network.getCookies` result.
pub open spec fn spec_cookie_header(result: JsonValue) -> Option<Seq<char>> {
    match json_get(result, "cookies"@) {
        Some(JsonValue::Array(items)) => {
            let l = cdp_cookies(items@, items@.len() as int);
            if l.len() == 0 {
                None
            } else {
                Some(header_of(l))
            }
        },
        _ => None,
    }
}

/// The `Cookie` header for the Baidu cookies of a `Network.getCookies` result,
/// sorted by name, one value per name.
pub fn cookie_header(result: &JsonValue) -> (r: Option<String>)
    ensures
        match r {
            Some(h) => spec_cookie_header(*result) == Some(h@),
            None => spec_cookie_header(*result) is None,
        },
{
    let items = match result.get("cookies") {
        Some(JsonValue::Array(items)) => items,
        _ => return None,
    };
    let mut cookies: Vec<(Vec<char>, Vec<char>)> = Vec::new();
    let mut i: usize = 0;
    while i < items.len()
        invariant
            i <= items@.len(),
            pairs_view(cookies@) == cdp_cookies(items@, i as int),
        decreases items@.len() - i,
    {
        let c = &items[i];
        let domain_ok = match str_of(c.get("domain")) {
            Some(d) => is_baidu_domain(d),
            None => false,
        };
        if domain_ok {
            match (str_of(c.get("name")), str_of(c.get("value"))) {
                (Some(n), Some(v)) => {
                    insert_sorted_exec(&mut cookies, chars_of(n), chars_of(v), false);
                },
                _ => {},
            }
        }
        i = i + 1;
    }
    assert(pairs_view(cookies@).len() == cookies@.len());
    if cookies.len() == 0 {
        return None;
    }
    let h = header_exec(&cookies);
    Some(string_of(&h))
}

/// Every cookie kept from a `Network.getCookies` result is one of its
/// entries whose domain is a Baidu domain.
pub proof fn law_cdp_cookies_are_baidu_entries(items: Seq<JsonValue>, n: int)
    ensures
        forall|k: int|
            0 <= k < cdp_cookies(items, n).len() ==> exists|i: int|
                0 <= i < n && i < items.len() && cdp_cookie_entry(items[i]) == Some(
                    #[trigger] cdp_cookies(items, n)[k],
                ),
    decreases n,
{
    if n > 0 && n <= items.len() {
        law_cdp_cookies_are_baidu_entries(items, n - 1);
        let acc = cdp_cookies(items, n - 1);
        match cdp_cookie_entry(items[n - 1]) {
            Some((name, value)) => {
                lemma_insert_sorted_members(acc, name, value, false);
                let r = cdp_cookies(items, n);
                assert forall|k: int| 0 <= k < r.len() implies exists|i: int|
                    0 <= i < n && i < items.len() && cdp_cookie_entry(items[i]) == Some(#[trigger] r[k]) by {
                    if r[k] == (name, value) {
                        assert(cdp_cookie_entry(items[n - 1]) == Some(r[k]));
                    } else {
                        assert(acc.contains(r[k]));
                        let j = choose|j: int| 0 <= j < acc.len() && acc[j] == r[k];
                        assert(exists|i: int| 0 <= i < n - 1 && i < items.len() && cdp_cookie_entry(items[i]) == Some(#[trigger] acc[j]));
                    }
                }
            },
            None => {},
        }
    }
}

/// The cookie header is sorted by name with each name once.
pub proof fn lemma_cdp_cookies_sorted(items: Seq<JsonValue>, n: int)
    ensures
        strictly_sorted(cdp_cookies(items, n)),
    decreases n,
{
    if n > 0 && n <= items.len() {
        lemma_cdp_cookies_sorted(items, n - 1);
        match cdp_cookie_entry(items[n - 1]) {
            Some((name, value)) => {
                lemma_insert_sorted_keeps_order(cdp_cookies(items, n - 1), name, value, false);
            },
            None => {},
        }
    }
}

// ---------------------------------------------------------------------------
// Capturing the page API of every thread page
// ---------------------------------------------------------------------------

/// The thread address without its query.
pub open spec fn spec_thread_base(thread_url: Seq<char>) -> Seq<char> {
    split(thread_url, '?')[0]
}

/// The thread address without its query (`split('?').next()`).
pub fn thread_base_url(thread_url: &str) -> (r: String)
    ensures
        r@ == spec_thread_base(thread_url@),
{
    let chars = chars_of(thread_url);
    let first = crate::image_url::first_piece(&chars, '?');
    string_of(&first)
}

/// The address that makes the browser load one page of the thread.
pub open spec fn spec_page_api_url(base: Seq<char>, page: nat, only_author: bool) -> Seq<char> {
    base + "?pn="@ + decimal(page) + "&lz="@ + if only_author {
        "1"@
    } else {
        "0"@
    }
}

/// The address that makes the browser load page `page` of the thread.
pub fn page_api_url(base: &str, page: usize, only_author: bool) -> (r: String)
    ensures
        r@ == spec_page_api_url(base@, page as nat, only_author),
{
    let p = decimal_string(page as u64);
    let a = concat(base, "?pn=");
    let b = concat(a.as_str(), p.as_str());
    let c = concat(b.as_str(), "&lz=");
    if only_author {
        concat(c.as_str(), "1")
    } else {
        concat(c.as_str(), "0")
    }
}

/// The page count a captured page API response reports, 1 when it reports none.
pub open spec fn spec_captured_total_pages(body: Option<JsonValue>) -> usize {
    match json_u64(json_path(body, seq!["page"@, "total_page"@])) {
        Some(n) => n as usize,
        None => 1,
    }
}

/// The page count the text of the first captured response reports; 1 when
/// there is none, when it is no JSON, or when it reports none.
pub fn captured_total_pages(body: Option<&str>) -> (r: usize)
    ensures
        r == match body {
            Some(t) => match json_parse_of(t@) {
                Ok(v) => spec_captured_total_pages(Some(v)),
                Err(_) => 1,
            },
            None => 1,
        },
{
    match body {
        Some(t) => match parse_json_text(t) {
            Ok(v) => captured_total_pages_of(Some(&v)),
            Err(_) => 1,
        },
        None => 1,
    }
}

fn captured_total_pages_of(body: Option<&JsonValue>) -> (r: usize)
    ensures
        r == spec_captured_total_pages(opt(body)),
{
    proof {
        reveal_with_fuel(json_path, 3);
    }
    match u64_of(get_opt(get_opt(body, "page"), "total_page")) {
        Some(n) => n as usize,
        None => 1,
    }
}

/// The strings among the items of an array (the resource names the page loaded).
pub open spec fn string_items(items: Seq<JsonValue>, n: int) -> Seq<Seq<char>>
    decreases n,
{
    if n <= 0 || n > items.len() {
        Seq::empty()
    } else {
        match items[n - 1] {
            JsonValue::String(s) => string_items(items, n - 1).push(s@),
            _ => string_items(items, n - 1),
        }
    }
}

/// The strings in `/result/value` of a `Runtime.evaluate` reply.
pub fn result_strings(reply: &JsonValue) -> (r: Vec<String>)
    ensures
        r@.len() == string_items(json_items(json_path(Some(*reply), seq!["result"@, "value"@])), json_items(json_path(Some(*reply), seq!["result"@, "value"@])).len() as int).len(),
        forall|i: int| 0 <= i < r@.len() ==> (#[trigger] r@[i])@ == string_items(json_items(json_path(Some(*reply), seq!["result"@, "value"@])), json_items(json_path(Some(*reply), seq!["result"@, "value"@])).len() as int)[i],
{
    proof {
        reveal_with_fuel(json_path, 3);
    }
    let items = items_of(get_opt(reply.get("result"), "value"));
    let ghost s = items@;
    let mut out: Vec<String> = Vec::new();
    let mut i: usize = 0;
    while i < items.len()
        invariant
            i <= items@.len(),
            s == items@,
            out@.len() == string_items(s, i as int).len(),
            forall|k: int| 0 <= k < out@.len() ==> (#[trigger] out@[k])@ == string_items(s, i as int)[k],
        decreases items@.len() - i,
    {
        match &items[i] {
            JsonValue::String(x) => {
                out.push(x.clone());
            },
            _ => {},
        }
        i = i + 1;
    }
    out
}

/// The string in `/result/value` of a `Runtime.evaluate` reply, or empty.
pub fn result_string(reply: &JsonValue) -> (r: String)
    ensures
        r@ == str_at_or_empty(Some(*reply), seq!["result"@, "value"@]),
{
    proof {
        reveal_with_fuel(json_path, 3);
    }
    match str_of(get_opt(reply.get("result"), "value")) {
        Some(s) => s.to_owned(),
        None => String::new(),
    }
}

/// What the capture of one page API response has seen so far.
pub struct CaptureState {
    /// The body of the page API request, once known.
    pub post_data: Option<String>,
    /// The DevTools id of the page API request, once its response arrived.
    pub target_request_id: Option<String>,
}

/// What to do after a DevTools network event.
pub enum CaptureAction {
    /// Wait for the next event.
    Continue,
    /// Ask for the request body of this request (`Network.getRequestPostData`).
    FetchPostData(String),
    /// The page API response has finished loading: ask for its body (`Network.getResponseBody`).
    FetchBody(String),
}

/// Whether a network event concerns the thread's page API.
pub open spec fn concerns_page_api(event: JsonValue) -> bool {
    let url = match json_str(json_path(Some(event), seq!["params"@, "request"@, "url"@])) {
        Some(u) => Some(u),
        None => json_str(json_path(Some(event), seq!["params"@, "response"@, "url"@])),
    };
    url matches Some(u) && contains(u, "/c/f/pb/page_pc"@)
}

/// How a network event changes the capture and what to do next.
pub open spec fn spec_capture_step(
    post_data: Option<Seq<char>>,
    target: Option<Seq<char>>,
    event: JsonValue,
) -> (Option<Seq<char>>, Option<Seq<char>>, int, Seq<char>) {
    let method = json_str(json_get(event, "method"@));
    let request_id = json_str(json_path(Some(event), seq!["params"@, "requestId"@]));
    if method == Some("Network.loadingFinished"@) {
        if request_id == target {
            (post_data, target, 2, match request_id { Some(r) => r, None => Seq::empty() })
        } else {
            (post_data, target, 0, Seq::empty())
        }
    } else if !concerns_page_api(event) {
        (post_data, target, 0, Seq::empty())
    } else if method == Some("Network.requestWillBeSent"@) {
        (json_str(json_path(Some(event), seq!["params"@, "request"@, "postData"@])), target, 0, Seq::empty())
    } else if method == Some("Network.responseReceived"@) {
        match request_id {
            None => (post_data, target, 0, Seq::empty()),
            Some(r) => if post_data is None {
                (post_data, Some(r), 1, r)
            } else {
                (post_data, Some(r), 0, Seq::empty())
            },
        }
    } else {
        (post_data, target, 0, Seq::empty())
    }
}

/// The action of a step as (kind, request id): 0 continue, 1 fetch post data, 2 fetch body.
pub open spec fn action_view(a: CaptureAction) -> (int, Seq<char>) {
    match a {
        CaptureAction::Continue => (0, Seq::empty()),
        CaptureAction::FetchPostData(r) => (1, r@),
        CaptureAction::FetchBody(r) => (2, r@),
    }
}

fn opt_str_owned(s: Option<&str>) -> (r: Option<String>)
    ensures
        opt_view(r) == match s {
            Some(x) => Some(x@),
            None => None,
        },
{
    match s {
        Some(x) => Some(x.to_owned()),
        None => None,
    }
}

fn same_opt(a: &Option<&str>, b: &Option<String>) -> (r: bool)
    ensures
        r == (match *a {
            Some(x) => Some(x@),
            None => None,
        } == opt_view(*b)),
{
    match (a, b) {
        (Some(x), Some(y)) => {
            let xc = chars_of(x);
            let yc = chars_of(y.as_str());
            crate::text::same_chars(&xc, &yc)
        },
        (None, None) => true,
        _ => false,
    }
}

impl CaptureState {
    pub fn new() -> (r: CaptureState)
        ensures
            r.post_data is None,
            r.target_request_id is None,
    {
        CaptureState { post_data: None, target_request_id: None }
    }

    /// Takes one network event into account (see `spec_capture_step`).
    pub fn step(&mut self, event: &JsonValue) -> (a: CaptureAction)
        ensures
            ({
                let s = spec_capture_step(
                    opt_view(old(self).post_data),
                    opt_view(old(self).target_request_id),
                    *event,
                );
                &&& opt_view(final(self).post_data) == s.0
                &&& opt_view(final(self).target_request_id) == s.1
                &&& action_view(a) == (s.2, s.3)
            }),
    {
        proof {
            reveal_with_fuel(json_path, 4);
        }
        let method = str_of(event.get("method"));
        let params = event.get("params");
        let request_id = str_of(get_opt(params, "requestId"));
        let m = match method {
            Some(x) => chars_of(x),
            None => Vec::new(),
        };
        let is_finished = method.is_some() && equals_str(&m, "Network.loadingFinished");
        if is_finished {
            if same_opt(&request_id, &self.target_request_id) {
                let id = match request_id {
                    Some(r) => r.to_owned(),
                    None => String::new(),
                };
                return CaptureAction::FetchBody(id);
            }
            return CaptureAction::Continue;
        }
        let url = match str_of(get_opt(get_opt(params, "request"), "url")) {
            Some(u) => Some(u),
            None => str_of(get_opt(get_opt(params, "response"), "url")),
        };
        let concerns = match url {
            Some(u) => {
                let uc = chars_of(u);
                contains_str(&uc, "/c/f/pb/page_pc")
            },
            None => false,
        };
        if !concerns {
            return CaptureAction::Continue;
        }
        if method.is_some() && equals_str(&m, "Network.requestWillBeSent") {
            self.post_data = opt_str_owned(str_of(get_opt(get_opt(params, "request"), "postData")));
            return CaptureAction::Continue;
        }
        if method.is_some() && equals_str(&m, "Network.responseReceived") {
            match request_id {
                None => CaptureAction::Continue,
                Some(r) => {
                    let fetch = self.post_data.is_none();
                    self.target_request_id = Some(r.to_owned());
                    if fetch {
                        CaptureAction::FetchPostData(r.to_owned())
                    } else {
                        CaptureAction::Continue
                    }
                },
            }
        } else {
            CaptureAction::Continue
        }
    }

    /// Takes the text of one DevTools message into account: a text that is no
    /// JSON fails with the parser's message and changes nothing.
    pub fn step_text(&mut self, frame: &str) -> (r: Result<CaptureAction>)
        ensures
            match json_parse_of(frame@) {
                Err(m) => r matches Err(e) && e@ == ErrorView::Json(m) && opt_view(final(self).post_data)
                    == opt_view(old(self).post_data) && opt_view(final(self).target_request_id) == opt_view(
                    old(self).target_request_id,
                ),
                Ok(event) => r matches Ok(a) && {
                    let s = spec_capture_step(
                        opt_view(old(self).post_data),
                        opt_view(old(self).target_request_id),
                        event,
                    );
                    &&& opt_view(final(self).post_data) == s.0
                    &&& opt_view(final(self).target_request_id) == s.1
                    &&& action_view(a) == (s.2, s.3)
                },
            },
    {
        match parse_json_text(frame) {
            Ok(event) => Ok(self.step(&event)),
            Err(m) => Err(AppError::Json(m)),
        }
    }

    /// Records the reply to `Network.getRequestPostData`.
    pub fn record_post_data(&mut self, reply: &JsonValue)
        ensures
            opt_view(final(self).post_data) == json_str(json_get(*reply, "postData"@)),
            final(self).target_request_id == old(self).target_request_id,
    {
        self.post_data = opt_str_owned(str_of(reply.get("postData")));
    }

    /// The captured `(request, response)` once `Network.getResponseBody` has
    /// answered with a body; `None` to keep waiting.
    pub fn finish(&self, reply: &JsonValue) -> (r: Option<(String, String)>)
        ensures
            match json_str(json_get(*reply, "body"@)) {
                Some(b) => r matches Some((req, body)) && body@ == b && req@ == match opt_view(self.post_data) {
                    Some(p) => p,
                    None => Seq::empty(),
                },
                None => r is None,
            },
    {
        match str_of(reply.get("body")) {
            Some(b) => {
                let req = match &self.post_data {
                    Some(p) => p.clone(),
                    None => String::new(),
                };
                Some((req, b.to_owned()))
            },
            None => None,
        }
    }
}


proof fn lemma_skip_other_targets(targets: Seq<Target>, thread_url: Seq<char>, i: int, k: int)
    requires
        0 <= i <= k <= targets.len(),
        forall|j: int| i <= j < k ==> !is_thread_target(#[trigger] targets[j], thread_url),
    ensures
        first_thread_target(targets, thread_url, i) == first_thread_target(targets, thread_url, k),
    decreases k - i,
{
    if i < k {
        lemma_skip_other_targets(targets, thread_url, i + 1, k);
    }
}

/// The login attaches to the first page target showing Tieba, whatever form
/// the thread link was given in: when target `k` is a page whose address is
/// on `tieba.baidu.com` and has a debugger address, and no target before it
/// is a page on `tieba.baidu.com` or at the thread link, its debugger
/// address is the one chosen.
pub proof fn law_attaches_to_first_tieba_page(targets: Seq<Target>, thread_url: Seq<char>, k: int)
    requires
        0 <= k < targets.len(),
        targets[k].kind@ == "page"@,
        contains(targets[k].url@, "tieba.baidu.com"@),
        targets[k].websocket_url is Some,
        forall|j: int|
            0 <= j < k ==> !((#[trigger] targets[j]).kind@ == "page"@ && (contains(
                targets[j].url@,
                "tieba.baidu.com"@,
            ) || targets[j].url@ == thread_url)),
    ensures
        spec_page_target(targets, thread_url) == Some(targets[k].websocket_url->0@),
{
    lemma_skip_other_targets(targets, thread_url, 0, k);
}

/// A page target at the thread link itself is attached to as well, when no
/// target before it is a page on `tieba.baidu.com` or at the thread link.
pub proof fn law_attaches_to_thread_link_page(targets: Seq<Target>, thread_url: Seq<char>, k: int)
    requires
        0 <= k < targets.len(),
        targets[k].kind@ == "page"@,
        targets[k].url@ == thread_url,
        targets[k].websocket_url is Some,
        forall|j: int|
            0 <= j < k ==> !((#[trigger] targets[j]).kind@ == "page"@ && (contains(
                targets[j].url@,
                "tieba.baidu.com"@,
            ) || targets[j].url@ == thread_url)),
    ensures
        spec_page_target(targets, thread_url) == Some(targets[k].websocket_url->0@),
{
    lemma_skip_other_targets(targets, thread_url, 0, k);
}

} // verus!
