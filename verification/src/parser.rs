//! Thread pages and their page API responses turned into image records;
//! stable ordering, deduplication and file naming; recognising error pages.
use vstd::prelude::*;
use crate::error::{AppError, ErrorView, Result};
use crate::image_url::{
    extension_from_url, normalized_key, original_url, spec_extension_from_url, spec_normalized_key,
    spec_original_url,
};
use crate::number::{zero_padded, zero_padded_chars};
use crate::weburl::{url_parse_outcome, url_query_pairs_of, WebUrl};
use crate::html::{html_attr, html_match_count, html_text, HtmlDocument, HtmlElement};
use crate::json::{json_parse_of, json_pointer, parse_json_text, pointer};
use crate::number::{parse_u64, parse_u64_spec, parse_usize, parse_usize_spec};
use crate::text::{equals_str, extend_chars, string_of, trim, trim_chars};
use crate::json::{
    get_opt, items_of, json_get, json_items, json_path, json_str, json_text, json_u64, json_i64,
    opt, str_of, to_json_text, u64_of, i64_of, JsonValue,
};
use crate::number::{decimal, decimal_string};
use crate::text::{chars_of, clone_opt, concat, contains, contains_str, lower, lower_chars, opt_view};

verus! {

/// One image of a thread: where it was found and where it is saved.
#[derive(Debug)]
pub struct ImageRecord {
    pub page: usize,
    pub post_order: usize,
    pub image_order: usize,
    pub floor: Option<u64>,
    pub author: Option<String>,
    pub post_id: Option<String>,
    pub original_url: String,
    pub normalized_url: String,
    pub target_file: String,
}

/// An image record as plain values.
pub struct RecordView {
    pub page: usize,
    pub post_order: usize,
    pub image_order: usize,
    pub floor: Option<u64>,
    pub author: Option<Seq<char>>,
    pub post_id: Option<Seq<char>>,
    pub original_url: Seq<char>,
    pub normalized_url: Seq<char>,
    pub target_file: Seq<char>,
}

impl View for ImageRecord {
    type V = RecordView;

    open spec fn view(&self) -> RecordView {
        RecordView {
            page: self.page,
            post_order: self.post_order,
            image_order: self.image_order,
            floor: self.floor,
            author: opt_view(self.author),
            post_id: opt_view(self.post_id),
            original_url: self.original_url@,
            normalized_url: self.normalized_url@,
            target_file: self.target_file@,
        }
    }
}

/// The plain values of a list of records.
pub open spec fn records_view(v: Seq<ImageRecord>) -> Seq<RecordView> {
    v.map_values(|r: ImageRecord| r@)
}

// ---------------------------------------------------------------------------
// Error pages
// ---------------------------------------------------------------------------

/// A login page, a security check or a captcha.
pub open spec fn spec_looks_like_verification(html: Seq<char>) -> bool {
    ||| contains(lower(html), "verify"@)
    ||| contains(html, "安全验证"@)
    ||| contains(html, "验证码"@)
    ||| contains(html, "登录贴吧"@)
}

/// Whether a page is a login page, a security check or a captcha.
pub fn looks_like_verification(html: &str) -> (r: bool)
    ensures
        r == spec_looks_like_verification(html@),
{
    let chars = chars_of(html);
    let lowered = lower_chars(&chars);
    contains_str(&lowered, "verify") || contains_str(&chars, "安全验证") || contains_str(&chars, "验证码")
        || contains_str(&chars, "登录贴吧")
}

/// An empty application shell that only a browser can fill in.
pub open spec fn spec_looks_like_client_rendered_shell(html: Seq<char>) -> bool {
    contains(html, "<div id=\"app\"></div>"@) && (contains(html, "renderType\":\"csr"@) || contains(
        html,
        "pc-main-core"@,
    ))
}

/// Whether a page is an empty shell rendered by the browser.
pub fn looks_like_client_rendered_shell(html: &str) -> (r: bool)
    ensures
        r == spec_looks_like_client_rendered_shell(html@),
{
    let chars = chars_of(html);
    contains_str(&chars, "<div id=\"app\"></div>") && (contains_str(&chars, "renderType\":\"csr")
        || contains_str(&chars, "pc-main-core"))
}

// ---------------------------------------------------------------------------
// The page API (`/c/f/pb/page_pc`)
// ---------------------------------------------------------------------------

/// How the error code of a response is shown: its JSON text, or `未知` when absent.
pub open spec fn error_code_text(v: JsonValue) -> Seq<char> {
    match json_get(v, "error_code"@) {
        Some(c) => json_text(c),
        None => "未知"@,
    }
}

/// A response reports success when its `error_code` is the integer 0.
pub open spec fn api_ok(v: JsonValue) -> bool {
    json_i64(json_get(v, "error_code"@)) == Some(0i64)
}

/// The page count of a response: `Ok(count)` (1 when it reports none) or the
/// message of its `PageAccess` error.
pub open spec fn spec_api_total_pages(v: JsonValue) -> std::result::Result<usize, Seq<char>> {
    if !api_ok(v) {
        Err("贴吧页面 API 返回错误码 "@ + error_code_text(v))
    } else {
        Ok(
            match json_u64(json_path(Some(v), seq!["page"@, "total_page"@])) {
                Some(n) => n as usize,
                None => 1,
            },
        )
    }
}

fn error_code_text_exec(v: &JsonValue) -> (r: String)
    ensures
        r@ == error_code_text(*v),
{
    match v.get("error_code") {
        Some(c) => to_json_text(c),
        None => "未知".to_owned(),
    }
}

/// The page count of a thread from its first page API response.
pub fn api_total_pages(value: &JsonValue) -> (r: Result<usize>)
    ensures
        match r {
            Ok(n) => spec_api_total_pages(*value) == Ok::<usize, Seq<char>>(n),
            Err(e) => e matches AppError::PageAccess(m) && spec_api_total_pages(*value) == Err::<
                usize,
                Seq<char>,
            >(m@),
        },
{
    if i64_of(value.get("error_code")) != Some(0i64) {
        let code = error_code_text_exec(value);
        return Err(AppError::PageAccess(concat("贴吧页面 API 返回错误码 ", code.as_str())));
    }
    proof {
        reveal_with_fuel(json_path, 3);
    }
    match u64_of(get_opt(value.get("page"), "total_page")) {
        Some(n) => Ok(n as usize),
        None => Ok(1),
    }
}

/// What the page count of a first page API response text is: a text that is
/// no JSON fails with the JSON parser's message, an error code with
/// `PageAccess`.
pub open spec fn spec_api_total_pages_text(body: Seq<char>) -> std::result::Result<usize, ErrorView> {
    match json_parse_of(body) {
        Err(m) => Err(ErrorView::Json(m)),
        Ok(v) => match spec_api_total_pages(v) {
            Ok(n) => Ok(n),
            Err(m) => Err(ErrorView::PageAccess(m)),
        },
    }
}

/// The page count a first page API response text reports.
pub fn api_total_pages_text(body: &str) -> (r: Result<usize>)
    ensures
        match r {
            Ok(n) => spec_api_total_pages_text(body@) == Ok::<usize, ErrorView>(n),
            Err(e) => spec_api_total_pages_text(body@) == Err::<usize, ErrorView>(e@),
        },
{
    match parse_json_text(body) {
        Err(m) => Err(AppError::Json(m)),
        Ok(v) => api_total_pages(&v),
    }
}

/// The `(id, name)` a user entry contributes: the displayed name when the
/// entry has one, else the account name.
pub open spec fn user_entry(u: JsonValue) -> Option<(u64, Seq<char>)> {
    let name_field = match json_get(u, "name_show"@) {
        Some(x) => Some(x),
        None => json_get(u, "name"@),
    };
    match (json_u64(json_get(u, "id"@)), json_str(name_field)) {
        (Some(id), Some(name)) => Some((id, name)),
        _ => None,
    }
}

/// The name of user `id` among the first `n` entries; a later entry for the same id wins.
pub open spec fn author_of(users: Seq<JsonValue>, id: u64, n: int) -> Option<Seq<char>>
    decreases n,
{
    if n <= 0 || n > users.len() {
        None
    } else {
        match user_entry(users[n - 1]) {
            Some((i, name)) => if i == id {
                Some(name)
            } else {
                author_of(users, id, n - 1)
            },
            None => author_of(users, id, n - 1),
        }
    }
}

/// The posts of a response: the first floor (on page 1) and then the post list.
pub open spec fn api_posts(v: JsonValue, page: usize) -> Seq<JsonValue> {
    let first: Seq<JsonValue> = match json_get(v, "first_floor"@) {
        Some(f) => if page == 1 {
            seq![f]
        } else {
            Seq::empty()
        },
        None => Seq::empty(),
    };
    first + json_items(json_get(v, "post_list"@))
}

/// The image source of a content item: the first of `origin_src`,
/// `big_cdn_src`, `cdn_src_active` and `cdn_src` that is a string.
pub open spec fn api_candidate(c: JsonValue) -> Option<Seq<char>> {
    match json_str(json_get(c, "origin_src"@)) {
        Some(s) => Some(s),
        None => match json_str(json_get(c, "big_cdn_src"@)) {
            Some(s) => Some(s),
            None => match json_str(json_get(c, "cdn_src_active"@)) {
                Some(s) => Some(s),
                None => json_str(json_get(c, "cdn_src"@)),
            },
        },
    }
}

/// The post id as text: a string as it is, an unsigned integer in decimal.
pub open spec fn api_post_id(post: JsonValue) -> Option<Seq<char>> {
    match json_get(post, "id"@) {
        Some(x) => match json_str(Some(x)) {
            Some(s) => Some(s),
            None => match json_u64(Some(x)) {
                Some(n) => Some(decimal(n as nat)),
                None => None,
            },
        },
        None => None,
    }
}

/// What every record of one post shares.
pub struct PostInfo {
    pub page: usize,
    pub post_order: usize,
    pub floor: Option<u64>,
    pub author: Option<Seq<char>>,
    pub post_id: Option<Seq<char>>,
}

pub open spec fn api_post_info(v: JsonValue, page: usize, post_order: usize, post: JsonValue) -> PostInfo {
    PostInfo {
        page,
        post_order,
        floor: json_u64(json_get(post, "floor"@)),
        author: match json_u64(json_get(post, "author_id"@)) {
            Some(id) => {
                let users = json_items(json_get(v, "user_list"@));
                author_of(users, id, users.len() as int)
            },
            None => None,
        },
        post_id: api_post_id(post),
    }
}

/// The records of the first `m` content items of a post.
pub open spec fn api_post_records(info: PostInfo, contents: Seq<JsonValue>, m: int) -> Seq<RecordView>
    decreases m,
{
    if m <= 0 || m > contents.len() {
        Seq::empty()
    } else {
        let acc = api_post_records(info, contents, m - 1);
        let c = contents[m - 1];
        if json_u64(json_get(c, "type"@)) != Some(3u64) {
            acc
        } else {
            match api_candidate(c) {
                Some(cand) => match spec_original_url(cand) {
                    Some(u) => acc.push(
                        RecordView {
                            page: info.page,
                            post_order: info.post_order,
                            image_order: acc.len() as usize,
                            floor: info.floor,
                            author: info.author,
                            post_id: info.post_id,
                            original_url: cand,
                            normalized_url: spec_normalized_key(u),
                            target_file: Seq::empty(),
                        },
                    ),
                    None => acc,
                },
                None => acc,
            }
        }
    }
}

/// The records of the first `n` posts of a response.
pub open spec fn api_records(v: JsonValue, page: usize, n: int) -> Seq<RecordView>
    decreases n,
{
    let posts = api_posts(v, page);
    if n <= 0 || n > posts.len() {
        Seq::empty()
    } else {
        let post = posts[n - 1];
        let contents = json_items(json_get(post, "content"@));
        api_records(v, page, n - 1) + api_post_records(
            api_post_info(v, page, (n - 1) as usize, post),
            contents,
            contents.len() as int,
        )
    }
}

/// The image records of one page API response, or the message of its `PageAccess` error.
pub open spec fn spec_parse_api_page(v: JsonValue, page: usize) -> std::result::Result<Seq<RecordView>, Seq<char>> {
    if !api_ok(v) {
        Err("贴吧第 "@ + decimal(page as nat) + " 页 API 返回错误码 "@ + error_code_text(v))
    } else {
        Ok(api_records(v, page, api_posts(v, page).len() as int))
    }
}

/// The records of a page API response text: a text that is no JSON fails
/// with the JSON parser's message, an error code with `PageAccess`.
pub open spec fn spec_parse_api_page_text(body: Seq<char>, page: usize) -> std::result::Result<Seq<RecordView>, ErrorView> {
    match json_parse_of(body) {
        Err(m) => Err(ErrorView::Json(m)),
        Ok(v) => match spec_parse_api_page(v, page) {
            Ok(records) => Ok(records),
            Err(m) => Err(ErrorView::PageAccess(m)),
        },
    }
}

fn author_lookup(users: &[JsonValue], id: u64) -> (r: Option<String>)
    ensures
        opt_view(r) == author_of(users@, id, users@.len() as int),
{
    let mut n: usize = users.len();
    while n > 0
        invariant
            n <= users@.len(),
            author_of(users@, id, users@.len() as int) == author_of(users@, id, n as int),
        decreases n,
    {
        let u = &users[n - 1];
        let name_field = match u.get("name_show") {
            Some(x) => Some(x),
            None => u.get("name"),
        };
        match (u64_of(u.get("id")), str_of(name_field)) {
            (Some(i), Some(name)) => {
                if i == id {
                    return Some(name.to_owned());
                }
            },
            _ => {},
        }
        n = n - 1;
    }
    None
}

fn api_candidate_exec(c: &JsonValue) -> (r: Option<&str>)
    ensures
        match r {
            Some(s) => api_candidate(*c) == Some(s@),
            None => api_candidate(*c) is None,
        },
{
    match str_of(c.get("origin_src")) {
        Some(s) => Some(s),
        None => match str_of(c.get("big_cdn_src")) {
            Some(s) => Some(s),
            None => match str_of(c.get("cdn_src_active")) {
                Some(s) => Some(s),
                None => str_of(c.get("cdn_src")),
            },
        },
    }
}

fn api_post_id_exec(post: &JsonValue) -> (r: Option<String>)
    ensures
        opt_view(r) == api_post_id(*post),
{
    match post.get("id") {
        Some(x) => match x.as_str() {
            Some(s) => Some(s.to_owned()),
            None => match x.as_u64() {
                Some(n) => Some(decimal_string(n)),
                None => None,
            },
        },
        None => None,
    }
}

/// The image records of one page API response.
pub fn parse_api_page(value: &JsonValue, page: usize) -> (r: Result<Vec<ImageRecord>>)
    ensures
        match r {
            Ok(v) => spec_parse_api_page(*value, page) == Ok::<Seq<RecordView>, Seq<char>>(records_view(v@)),
            Err(e) => e matches AppError::PageAccess(m) && spec_parse_api_page(*value, page) == Err::<
                Seq<RecordView>,
                Seq<char>,
            >(m@),
        },
{
    if i64_of(value.get("error_code")) != Some(0i64) {
        let code = error_code_text_exec(value);
        let p = decimal_string(page as u64);
        let a = concat("贴吧第 ", p.as_str());
        let b = concat(a.as_str(), " 页 API 返回错误码 ");
        return Err(AppError::PageAccess(concat(b.as_str(), code.as_str())));
    }
    let users = items_of(value.get("user_list"));
    let mut posts: Vec<&JsonValue> = Vec::new();
    if page == 1 {
        match value.get("first_floor") {
            Some(f) => posts.push(f),
            None => {},
        }
    }
    let list = items_of(value.get("post_list"));
    let mut j: usize = 0;
    while j < list.len()
        invariant
            j <= list@.len(),
            posts@.len() <= 1 + j,
            posts@.map_values(|p: &JsonValue| *p) =~= (match json_get(*value, "first_floor"@) {
                Some(f) => if page == 1 {
                    seq![f]
                } else {
                    Seq::empty()
                },
                None => Seq::empty(),
            }) + list@.take(j as int),
        decreases list@.len() - j,
    {
        let ghost before = posts@;
        posts.push(&list[j]);
        assert(posts@.map_values(|p: &JsonValue| *p) =~= before.map_values(|p: &JsonValue| *p).push(list@[j as int]));
        assert(list@.take(j + 1) =~= list@.take(j as int).push(list@[j as int]));
        j = j + 1;
    }
    let ghost all_posts = api_posts(*value, page);
    assert(list@.take(j as int) =~= list@);
    assert(posts@.map_values(|p: &JsonValue| *p) =~= all_posts);
    let mut records: Vec<ImageRecord> = Vec::new();
    let mut p: usize = 0;
    while p < posts.len()
        invariant
            p <= posts@.len(),
            posts@.len() == all_posts.len(),
            forall|k: int| 0 <= k < posts@.len() ==> *(#[trigger] posts@[k]) == all_posts[k],
            all_posts == api_posts(*value, page),
            users@ == json_items(json_get(*value, "user_list"@)),
            records_view(records@) == api_records(*value, page, p as int),
        decreases posts@.len() - p,
    {
        let post = posts[p];
        let floor = u64_of(post.get("floor"));
        let author = match u64_of(post.get("author_id")) {
            Some(id) => author_lookup(users, id),
            None => None,
        };
        let post_id = api_post_id_exec(post);
        let ghost info = api_post_info(*value, page, p, *post);
        assert(info.author == opt_view(author));
        let contents = items_of(post.get("content"));
        let ghost before = records_view(records@);
        let mut image_order: usize = 0;
        let mut m: usize = 0;
        while m < contents.len()
            invariant
                m <= contents@.len(),
                records_view(records@) == before + api_post_records(info, contents@, m as int),
                image_order == api_post_records(info, contents@, m as int).len(),
                image_order <= m,
                info.page == page && info.post_order == p && info.floor == floor,
                info.author == opt_view(author) && info.post_id == opt_view(post_id),
            decreases contents@.len() - m,
        {
            let c = &contents[m];
            if u64_of(c.get("type")) == Some(3u64) {
                match api_candidate_exec(c) {
                    Some(cand) => match original_url(cand) {
                        Some(url) => {
                            let rec = ImageRecord {
                                page,
                                post_order: p,
                                image_order,
                                floor,
                                author: clone_opt(&author),
                                post_id: clone_opt(&post_id),
                                original_url: cand.to_owned(),
                                normalized_url: normalized_key(&url),
                                target_file: String::new(),
                            };
                            let ghost old_records = records@;
                            records.push(rec);
                            assert(records_view(records@) =~= records_view(old_records).push(rec@));
                            image_order = image_order + 1;
                        },
                        None => {},
                    },
                    None => {},
                }
            }
            m = m + 1;
        }
        assert(records_view(records@) =~= api_records(*value, page, p + 1));
        p = p + 1;
    }
    Ok(records)
}


// ---------------------------------------------------------------------------
// Ordering, deduplication and file names
// ---------------------------------------------------------------------------

/// BLAKE3 of the UTF-8 bytes of a text, in lowercase hexadecimal.
pub uninterp spec fn blake3_hex_of(text: Seq<char>) -> Seq<char>;

/// `blake3::hash(text.as_bytes()).to_hex()`: the 64 lowercase hexadecimal
/// digits of the 32-byte BLAKE3 hash of the text's UTF-8 bytes.
#[verifier::external_body]
fn blake3_hex(text: &str) -> (r: String)
    ensures
        r@ == blake3_hex_of(text@),
        r@.len() == 64,
{
    blake3::hash(text.as_bytes()).to_hex().to_string()
}

/// Records are ordered by page, then post, then image.
pub open spec fn key_lt(a: RecordView, b: RecordView) -> bool {
    ||| a.page < b.page
    ||| (a.page == b.page && a.post_order < b.post_order)
    ||| (a.page == b.page && a.post_order == b.post_order && a.image_order < b.image_order)
}

pub open spec fn key_le(a: RecordView, b: RecordView) -> bool {
    !key_lt(b, a)
}

/// All records of the first `n` pages, page after page.
pub open spec fn concat_pages(pages: Seq<Seq<RecordView>>, n: int) -> Seq<RecordView>
    decreases n,
{
    if n <= 0 || n > pages.len() {
        Seq::empty()
    } else {
        concat_pages(pages, n - 1) + pages[n - 1]
    }
}

/// The first position at or after `i` whose record sorts after `x`.
pub open spec fn after_pos(s: Seq<RecordView>, x: RecordView, i: int) -> int
    decreases s.len() - i,
{
    if i < 0 || i >= s.len() {
        if i < 0 { 0 } else { s.len() as int }
    } else if key_lt(x, s[i]) {
        i
    } else {
        after_pos(s, x, i + 1)
    }
}

/// `x` placed after every record that does not sort after it.
pub open spec fn stable_insert(s: Seq<RecordView>, x: RecordView) -> Seq<RecordView> {
    s.insert(after_pos(s, x, 0), x)
}

/// The first `n` records in stable order by key (`sort_by_key`).
pub open spec fn stable_sort(s: Seq<RecordView>, n: int) -> Seq<RecordView>
    decreases n,
{
    if n <= 0 || n > s.len() {
        Seq::empty()
    } else {
        stable_insert(stable_sort(s, n - 1), s[n - 1])
    }
}

/// Whether a record with this normalized address is in `s`.
pub open spec fn has_url(s: Seq<RecordView>, url: Seq<char>) -> bool {
    exists|i: int| 0 <= i < s.len() && (#[trigger] s[i]).normalized_url == url
}

/// The first `n` records, each address kept at its first record only.
pub open spec fn dedup_first(s: Seq<RecordView>, n: int) -> Seq<RecordView>
    decreases n,
{
    if n <= 0 || n > s.len() {
        Seq::empty()
    } else {
        let acc = dedup_first(s, n - 1);
        if has_url(acc, s[n - 1].normalized_url) {
            acc
        } else {
            acc.push(s[n - 1])
        }
    }
}

/// The extension an image is saved with: the one its address names, else `jpg`.
pub open spec fn saved_extension(url: Seq<char>) -> Seq<char> {
    match url_parse_outcome(url) {
        Ok(u) => match spec_extension_from_url(u) {
            Some(e) => e,
            None => "jpg"@,
        },
        Err(_) => "jpg"@,
    }
}

/// The file name of the record at `index`: `NNNNN_fFFFF_HHHHHHHH.ext` with the
/// 1-based position, the floor (0 when unknown), the first eight hexadecimal
/// digits of the address hash and the extension.
pub open spec fn target_name(index: nat, r: RecordView) -> Seq<char> {
    zero_padded(index + 1, 5) + "_f"@ + zero_padded(
        match r.floor {
            Some(f) => f as nat,
            None => 0,
        },
        4,
    ) + "_"@ + blake3_hex_of(r.normalized_url).take(8) + "."@ + saved_extension(r.normalized_url)
}

/// The record with its file name set.
pub open spec fn named(index: nat, r: RecordView) -> RecordView {
    RecordView { target_file: target_name(index, r), ..r }
}

/// All records of all pages: sorted by key, each address once, each named after its position.
pub open spec fn spec_sort_deduplicate(pages: Seq<Seq<RecordView>>) -> Seq<RecordView> {
    let all = concat_pages(pages, pages.len() as int);
    let unique = dedup_first(stable_sort(all, all.len() as int), all.len() as int);
    Seq::new(unique.len(), |i: int| named(i as nat, unique[i]))
}

fn clone_record(r: &ImageRecord) -> (out: ImageRecord)
    ensures
        out@ == r@,
{
    ImageRecord {
        page: r.page,
        post_order: r.post_order,
        image_order: r.image_order,
        floor: r.floor,
        author: clone_opt(&r.author),
        post_id: clone_opt(&r.post_id),
        original_url: r.original_url.clone(),
        normalized_url: r.normalized_url.clone(),
        target_file: r.target_file.clone(),
    }
}

fn key_lt_exec(a: &ImageRecord, b: &ImageRecord) -> (r: bool)
    ensures
        r == key_lt(a@, b@),
{
    a.page < b.page || (a.page == b.page && a.post_order < b.post_order) || (a.page == b.page
        && a.post_order == b.post_order && a.image_order < b.image_order)
}

fn saved_extension_exec(url: &str) -> (r: String)
    ensures
        r@ == saved_extension(url@),
{
    match WebUrl::parse(url) {
        Ok(u) => match extension_from_url(&u) {
            Some(e) => e.to_owned(),
            None => "jpg".to_owned(),
        },
        Err(_) => "jpg".to_owned(),
    }
}

fn target_name_exec(index: usize, r: &ImageRecord) -> (out: String)
    requires
        index < usize::MAX,
    ensures
        out@ == target_name(index as nat, r@),
{
    let mut name = zero_padded_chars((index + 1) as u64, 5);
    let f = crate::text::chars_of("_f");
    crate::text::extend_chars(&mut name, &f);
    let floor: u64 = match r.floor {
        Some(x) => x,
        None => 0,
    };
    let fl = zero_padded_chars(floor, 4);
    crate::text::extend_chars(&mut name, &fl);
    let us = crate::text::chars_of("_");
    crate::text::extend_chars(&mut name, &us);
    let hash = blake3_hex(r.normalized_url.as_str());
    let hash_chars = chars_of(hash.as_str());
    let short = crate::text::chars_range(&hash_chars, 0, 8);
    assert(short@ =~= blake3_hex_of(r.normalized_url@).take(8));
    crate::text::extend_chars(&mut name, &short);
    let dot = crate::text::chars_of(".");
    crate::text::extend_chars(&mut name, &dot);
    let ext = saved_extension_exec(r.normalized_url.as_str());
    let ext_chars = chars_of(ext.as_str());
    crate::text::extend_chars(&mut name, &ext_chars);
    crate::text::string_of(&name)
}

/// All records of all pages in order of page, post and image (stable), each
/// address kept at its first record, and each named after its position.
pub fn sort_deduplicate(pages: Vec<Vec<ImageRecord>>) -> (r: Vec<ImageRecord>)
    requires
        concat_pages(pages@.map_values(|p: Vec<ImageRecord>| records_view(p@)), pages@.len() as int).len() < usize::MAX,
    ensures
        records_view(r@) == spec_sort_deduplicate(pages@.map_values(|p: Vec<ImageRecord>| records_view(p@))),
{
    let ghost pv = pages@.map_values(|p: Vec<ImageRecord>| records_view(p@));
    // All records, page after page.
    let mut all: Vec<ImageRecord> = Vec::new();
    let mut k: usize = 0;
    while k < pages.len()
        invariant
            k <= pages@.len(),
            pv == pages@.map_values(|p: Vec<ImageRecord>| records_view(p@)),
            records_view(all@) == concat_pages(pv, k as int),
        decreases pages@.len() - k,
    {
        let page = &pages[k];
        let ghost before = records_view(all@);
        let mut j: usize = 0;
        while j < page.len()
            invariant
                j <= page@.len(),
                records_view(all@) == before + records_view(page@).take(j as int),
            decreases page@.len() - j,
        {
            let rec = clone_record(&page[j]);
            let ghost old_all = all@;
            all.push(rec);
            assert(records_view(all@) =~= records_view(old_all).push(page@[j as int]@));
            assert(records_view(page@).take(j + 1) =~= records_view(page@).take(j as int).push(page@[j as int]@));
            j = j + 1;
        }
        assert(records_view(page@).take(j as int) =~= records_view(page@));
        assert(pv[k as int] == records_view(page@));
        k = k + 1;
    }
    let ghost av = records_view(all@);
    // Stable insertion sort by key.
    let mut sorted: Vec<ImageRecord> = Vec::new();
    let mut i: usize = 0;
    while i < all.len()
        invariant
            i <= all@.len(),
            av == records_view(all@),
            records_view(sorted@) == stable_sort(av, i as int),
            sorted@.len() == i,
        decreases all@.len() - i,
    {
        let x = &all[i];
        let ghost sv = records_view(sorted@);
        let mut pos: usize = 0;
        while pos < sorted.len() && !key_lt_exec(x, &sorted[pos])
            invariant
                pos <= sorted@.len(),
                sv == records_view(sorted@),
                after_pos(sv, x@, 0) == after_pos(sv, x@, pos as int),
            decreases sorted@.len() - pos,
        {
            pos = pos + 1;
        }
        let rec = clone_record(x);
        sorted.insert(pos, rec);
        assert(records_view(sorted@) =~= sv.insert(pos as int, x@));
        assert(av[i as int] == x@);
        i = i + 1;
    }
    // Each address once, at its first record.
    let ghost sorted_v = records_view(sorted@);
    let mut unique: Vec<ImageRecord> = Vec::new();
    let mut m: usize = 0;
    while m < sorted.len()
        invariant
            m <= sorted@.len(),
            sorted_v == records_view(sorted@),
            records_view(unique@) == dedup_first(sorted_v, m as int),
            unique@.len() <= m,
        decreases sorted@.len() - m,
    {
        let x = &sorted[m];
        let ghost uv = records_view(unique@);
        let mut seen = false;
        let mut q: usize = 0;
        while q < unique.len()
            invariant
                q <= unique@.len(),
                uv == records_view(unique@),
                seen == exists|t: int| 0 <= t < q && (#[trigger] uv[t]).normalized_url == x@.normalized_url,
            decreases unique@.len() - q,
        {
            assert(uv[q as int] == unique@[q as int]@);
            if unique[q].normalized_url == x.normalized_url {
                seen = true;
            }
            q = q + 1;
        }
        assert(sorted_v[m as int] == x@);
        if !seen {
            let rec = clone_record(x);
            unique.push(rec);
            assert(records_view(unique@) =~= uv.push(x@));
        }
        m = m + 1;
    }
    // Names after positions.
    let ghost unique_v = records_view(unique@);
    let mut out: Vec<ImageRecord> = Vec::new();
    let mut n: usize = 0;
    while n < unique.len()
        invariant
            n <= unique@.len(),
            unique@.len() < usize::MAX,
            unique_v == records_view(unique@),
            records_view(out@) == Seq::new(n as nat, |t: int| named(t as nat, unique_v[t])),
        decreases unique@.len() - n,
    {
        let u = &unique[n];
        let name = target_name_exec(n, u);
        let rec = ImageRecord {
            page: u.page,
            post_order: u.post_order,
            image_order: u.image_order,
            floor: u.floor,
            author: clone_opt(&u.author),
            post_id: clone_opt(&u.post_id),
            original_url: u.original_url.clone(),
            normalized_url: u.normalized_url.clone(),
            target_file: name,
        };
        let ghost old_out = out@;
        out.push(rec);
        assert(unique_v[n as int] == u@);
        assert(records_view(out@) =~= records_view(old_out).push(rec@));
        assert(rec@ == named(n as nat, u@));
        assert(records_view(out@) =~= Seq::new((n + 1) as nat, |t: int| named(t as nat, unique_v[t])));
        n = n + 1;
    }
    out
}


// ---------------------------------------------------------------------------
// What ordering and deduplication guarantee
// ---------------------------------------------------------------------------

pub open spec fn key_sorted(s: Seq<RecordView>) -> bool {
    forall|i: int, j: int| 0 <= i < j < s.len() ==> key_le(#[trigger] s[i], #[trigger] s[j])
}

proof fn lemma_after_pos(s: Seq<RecordView>, x: RecordView, i: int)
    requires
        0 <= i <= s.len(),
    ensures
        i <= after_pos(s, x, i) <= s.len(),
        forall|k: int| i <= k < after_pos(s, x, i) ==> !key_lt(x, #[trigger] s[k]),
        after_pos(s, x, i) < s.len() ==> key_lt(x, s[after_pos(s, x, i)]),
    decreases s.len() - i,
{
    if i < s.len() && !key_lt(x, s[i]) {
        lemma_after_pos(s, x, i + 1);
    }
}

proof fn lemma_stable_insert(s: Seq<RecordView>, x: RecordView)
    requires
        key_sorted(s),
    ensures
        key_sorted(stable_insert(s, x)),
        stable_insert(s, x).len() == s.len() + 1,
        forall|y: RecordView| stable_insert(s, x).contains(y) <==> (s.contains(y) || y == x),
{
    lemma_after_pos(s, x, 0);
    let pos = after_pos(s, x, 0);
    let r = stable_insert(s, x);
    assert forall|a: int, b: int| 0 <= a < b < r.len() implies key_le(#[trigger] r[a], #[trigger] r[b]) by {
        if b < pos {
            assert(r[a] == s[a] && r[b] == s[b]);
        } else if b == pos {
            assert(r[a] == s[a]);
        } else if a == pos {
            assert(r[b] == s[b - 1]);
            if b - 1 > pos {
                assert(key_le(s[pos], s[b - 1]));
            }
        } else if a < pos {
            assert(r[a] == s[a] && r[b] == s[b - 1]);
        } else {
            assert(r[a] == s[a - 1] && r[b] == s[b - 1]);
        }
    }
    assert forall|y: RecordView| r.contains(y) <==> (s.contains(y) || y == x) by {
        if r.contains(y) {
            let k = choose|k: int| 0 <= k < r.len() && r[k] == y;
            if k < pos {
                assert(s[k] == y);
            } else if k > pos {
                assert(s[k - 1] == y);
            }
        }
        if s.contains(y) {
            let k = choose|k: int| 0 <= k < s.len() && s[k] == y;
            if k < pos {
                assert(r[k] == y);
            } else {
                assert(r[k + 1] == y);
            }
        }
        if y == x {
            assert(r[pos] == x);
        }
    }
}

proof fn lemma_stable_sort(s: Seq<RecordView>, n: int)
    requires
        0 <= n <= s.len(),
    ensures
        key_sorted(stable_sort(s, n)),
        stable_sort(s, n).len() == n,
        forall|y: RecordView| stable_sort(s, n).contains(y) <==> (exists|k: int| 0 <= k < n && #[trigger] s[k] == y),
    decreases n,
{
    if n > 0 {
        lemma_stable_sort(s, n - 1);
        lemma_stable_insert(stable_sort(s, n - 1), s[n - 1]);
        assert forall|y: RecordView| stable_sort(s, n).contains(y) <==> (exists|k: int| 0 <= k < n && #[trigger] s[k] == y) by {
            if stable_sort(s, n - 1).contains(y) {
                let k = choose|k: int| 0 <= k < n - 1 && #[trigger] s[k] == y;
                assert(0 <= k < n && s[k] == y);
            }
            if exists|k: int| 0 <= k < n && #[trigger] s[k] == y {
                let k = choose|k: int| 0 <= k < n && #[trigger] s[k] == y;
                if k < n - 1 {
                    assert(exists|k2: int| 0 <= k2 < n - 1 && #[trigger] s[k2] == y);
                }
            }
        }
    } else {
        assert(stable_sort(s, n) =~= Seq::<RecordView>::empty());
    }
}

/// The records that deduplication keeps: each comes from `s`, at an index
/// no later than any other record of its address.
proof fn lemma_dedup_first(s: Seq<RecordView>, n: int)
    requires
        0 <= n <= s.len(),
    ensures
        ({
            let d = dedup_first(s, n);
            &&& forall|i: int| 0 <= i < d.len() ==> exists|k: int| 0 <= k < n && s[k] == #[trigger] d[i]
                && forall|k2: int| 0 <= k2 < k ==> #[trigger] s[k2].normalized_url != s[k].normalized_url
            &&& forall|i: int, j: int| 0 <= i < j < d.len() ==> (#[trigger] d[i]).normalized_url
                != (#[trigger] d[j]).normalized_url
            &&& forall|u: Seq<char>| has_url(d, u) <==> exists|k: int| 0 <= k < n && (#[trigger] s[k]).normalized_url == u
            &&& key_sorted(s) ==> key_sorted(d)
            &&& key_sorted(s) ==> forall|i: int| 0 <= i < d.len() ==> forall|k: int| 0 <= k < n && (#[trigger] s[k]).normalized_url == (#[trigger] d[i]).normalized_url ==> key_le(d[i], s[k])
        }),
    decreases n,
{
    if n > 0 {
        lemma_dedup_first(s, n - 1);
        let acc = dedup_first(s, n - 1);
        let x = s[n - 1];
        let d = dedup_first(s, n);
        if has_url(acc, x.normalized_url) {
            assert(d == acc);
            assert forall|u: Seq<char>| has_url(d, u) <==> exists|k: int| 0 <= k < n && (#[trigger] s[k]).normalized_url == u by {
                if exists|k: int| 0 <= k < n && (#[trigger] s[k]).normalized_url == u {
                    let k = choose|k: int| 0 <= k < n && (#[trigger] s[k]).normalized_url == u;
                    if k < n - 1 {
                        assert(exists|k2: int| 0 <= k2 < n - 1 && (#[trigger] s[k2]).normalized_url == u);
                    }
                }
            }
            if key_sorted(s) {
                assert forall|i: int| 0 <= i < d.len() implies forall|k: int| 0 <= k < n && (#[trigger] s[k]).normalized_url == (#[trigger] d[i]).normalized_url ==> key_le(d[i], s[k]) by {
                    assert forall|k: int| 0 <= k < n && (#[trigger] s[k]).normalized_url == (#[trigger] d[i]).normalized_url implies key_le(d[i], s[k]) by {
                        if k == n - 1 {
                            let k1 = choose|k1: int| 0 <= k1 < n - 1 && s[k1] == #[trigger] d[i]
                                && forall|k2: int| 0 <= k2 < k1 ==> #[trigger] s[k2].normalized_url != s[k1].normalized_url;
                            assert(key_le(s[k1], s[n - 1]));
                        }
                    }
                }
            }
        } else {
            assert(d == acc.push(x));
            assert forall|i: int| 0 <= i < d.len() implies exists|k: int| 0 <= k < n && s[k] == #[trigger] d[i]
                && forall|k2: int| 0 <= k2 < k ==> #[trigger] s[k2].normalized_url != s[k].normalized_url by {
                if i == d.len() - 1 {
                    assert(d[i] == s[n - 1]);
                    assert forall|k2: int| 0 <= k2 < n - 1 implies #[trigger] s[k2].normalized_url != s[n - 1].normalized_url by {
                        if s[k2].normalized_url == s[n - 1].normalized_url {
                            assert(exists|k: int| 0 <= k < n - 1 && (#[trigger] s[k]).normalized_url == x.normalized_url);
                        }
                    }
                } else {
                    assert(d[i] == acc[i]);
                }
            }
            assert forall|i: int, j: int| 0 <= i < j < d.len() implies (#[trigger] d[i]).normalized_url
                != (#[trigger] d[j]).normalized_url by {
                if j == d.len() - 1 {
                    assert(d[i] == acc[i]);
                    if acc[i].normalized_url == x.normalized_url {
                        assert(has_url(acc, x.normalized_url));
                    }
                } else {
                    assert(d[i] == acc[i] && d[j] == acc[j]);
                }
            }
            assert forall|u: Seq<char>| has_url(d, u) <==> exists|k: int| 0 <= k < n && (#[trigger] s[k]).normalized_url == u by {
                if has_url(d, u) {
                    let i = choose|i: int| 0 <= i < d.len() && (#[trigger] d[i]).normalized_url == u;
                    if i < acc.len() {
                        assert(acc[i] == d[i]);
                        assert(has_url(acc, u));
                        let k = choose|k: int| 0 <= k < n - 1 && (#[trigger] s[k]).normalized_url == u;
                        assert(0 <= k < n);
                    } else {
                        assert(s[n - 1].normalized_url == u);
                    }
                }
                if exists|k: int| 0 <= k < n && (#[trigger] s[k]).normalized_url == u {
                    let k = choose|k: int| 0 <= k < n && (#[trigger] s[k]).normalized_url == u;
                    if k < n - 1 {
                        assert(exists|k2: int| 0 <= k2 < n - 1 && (#[trigger] s[k2]).normalized_url == u);
                        assert(has_url(acc, u));
                        let i = choose|i: int| 0 <= i < acc.len() && (#[trigger] acc[i]).normalized_url == u;
                        assert(d[i] == acc[i]);
                    } else {
                        assert(d[d.len() - 1] == x);
                    }
                }
            }
            if key_sorted(s) {
                assert forall|i: int, j: int| 0 <= i < j < d.len() implies key_le(#[trigger] d[i], #[trigger] d[j]) by {
                    if j == d.len() - 1 {
                        assert(d[i] == acc[i]);
                        let k = choose|k: int| 0 <= k < n - 1 && s[k] == #[trigger] acc[i]
                            && forall|k2: int| 0 <= k2 < k ==> #[trigger] s[k2].normalized_url != s[k].normalized_url;
                        assert(key_le(s[k], s[n - 1]));
                    } else {
                        assert(d[i] == acc[i] && d[j] == acc[j]);
                    }
                }
                assert forall|i: int| 0 <= i < d.len() implies forall|k: int| 0 <= k < n && (#[trigger] s[k]).normalized_url == (#[trigger] d[i]).normalized_url ==> key_le(d[i], s[k]) by {
                    assert forall|k: int| 0 <= k < n && (#[trigger] s[k]).normalized_url == (#[trigger] d[i]).normalized_url implies key_le(d[i], s[k]) by {
                        let k1 = choose|k1: int| 0 <= k1 < n && s[k1] == #[trigger] d[i]
                            && forall|k2: int| 0 <= k2 < k1 ==> #[trigger] s[k2].normalized_url != s[k1].normalized_url;
                        if k < k1 {
                            assert(s[k].normalized_url != s[k1].normalized_url);
                        } else if k > k1 {
                            assert(key_le(s[k1], s[k]));
                        }
                    }
                }
            }
        }
    } else {
        assert(dedup_first(s, n) =~= Seq::<RecordView>::empty());
    }
}

proof fn lemma_concat_pages(pages: Seq<Seq<RecordView>>, n: int)
    requires
        0 <= n <= pages.len(),
    ensures
        forall|y: RecordView| concat_pages(pages, n).contains(y) <==> exists|p: int| 0 <= p < n && (#[trigger] pages[p]).contains(y),
    decreases n,
{
    if n > 0 {
        lemma_concat_pages(pages, n - 1);
        let a = concat_pages(pages, n - 1);
        let b = pages[n - 1];
        assert forall|y: RecordView| concat_pages(pages, n).contains(y) <==> exists|p: int| 0 <= p < n && (#[trigger] pages[p]).contains(y) by {
            let c = concat_pages(pages, n);
            if c.contains(y) {
                let k = choose|k: int| 0 <= k < c.len() && c[k] == y;
                if k < a.len() {
                    assert(a[k] == y);
                    assert(a.contains(y));
                } else {
                    assert(b[k - a.len()] == y);
                    assert(pages[n - 1].contains(y));
                }
            }
            if exists|p: int| 0 <= p < n && (#[trigger] pages[p]).contains(y) {
                let p = choose|p: int| 0 <= p < n && (#[trigger] pages[p]).contains(y);
                if p < n - 1 {
                    assert(a.contains(y));
                    let k = choose|k: int| 0 <= k < a.len() && a[k] == y;
                    assert(c[k] == y);
                } else {
                    let k = choose|k: int| 0 <= k < b.len() && b[k] == y;
                    assert(c[a.len() + k] == y);
                }
            }
        }
    } else {
        assert(concat_pages(pages, n) =~= Seq::<RecordView>::empty());
    }
}

/// The records `sort_deduplicate` returns follow one another by page, then
/// post, then image.
pub proof fn law_sort_deduplicate_ordered(pages: Seq<Seq<RecordView>>)
    ensures
        forall|i: int, j: int|
            0 <= i < j < spec_sort_deduplicate(pages).len() ==> key_le(
                #[trigger] spec_sort_deduplicate(pages)[i],
                #[trigger] spec_sort_deduplicate(pages)[j],
            ),
{
    let all = concat_pages(pages, pages.len() as int);
    lemma_stable_sort(all, all.len() as int);
    lemma_dedup_first(stable_sort(all, all.len() as int), all.len() as int);
}

/// No two records that `sort_deduplicate` returns share a normalized address.
pub proof fn law_sort_deduplicate_unique(pages: Seq<Seq<RecordView>>)
    ensures
        forall|i: int, j: int|
            0 <= i < j < spec_sort_deduplicate(pages).len() ==> (#[trigger] spec_sort_deduplicate(pages)[i]).normalized_url
                != (#[trigger] spec_sort_deduplicate(pages)[j]).normalized_url,
{
    let all = concat_pages(pages, pages.len() as int);
    lemma_stable_sort(all, all.len() as int);
    lemma_dedup_first(stable_sort(all, all.len() as int), all.len() as int);
}

/// Every address found on any page is among the records `sort_deduplicate`
/// returns, and it returns no other address.
pub proof fn law_sort_deduplicate_keeps_every_image(pages: Seq<Seq<RecordView>>)
    ensures
        forall|u: Seq<char>|
            has_url(spec_sort_deduplicate(pages), u) <==> exists|p: int, k: int|
                0 <= p < pages.len() && 0 <= k < pages[p].len() && (#[trigger] pages[p][k]).normalized_url == u,
{
    let all = concat_pages(pages, pages.len() as int);
    let sorted = stable_sort(all, all.len() as int);
    let unique = dedup_first(sorted, all.len() as int);
    let out = spec_sort_deduplicate(pages);
    lemma_stable_sort(all, all.len() as int);
    lemma_dedup_first(sorted, all.len() as int);
    lemma_concat_pages(pages, pages.len() as int);
    assert forall|u: Seq<char>| has_url(out, u) <==> exists|p: int, k: int|
        0 <= p < pages.len() && 0 <= k < pages[p].len() && (#[trigger] pages[p][k]).normalized_url == u by {
        if has_url(out, u) {
            let i = choose|i: int| 0 <= i < out.len() && (#[trigger] out[i]).normalized_url == u;
            assert(out[i].normalized_url == unique[i].normalized_url);
            assert(has_url(unique, u));
            let k = choose|k: int| 0 <= k < all.len() && (#[trigger] sorted[k]).normalized_url == u;
            assert(sorted.contains(sorted[k]));
            let k2 = choose|k2: int| 0 <= k2 < all.len() && #[trigger] all[k2] == sorted[k];
            assert(all.contains(all[k2]));
            let p = choose|p: int| 0 <= p < pages.len() && (#[trigger] pages[p]).contains(all[k2]);
            let k3 = choose|k3: int| 0 <= k3 < pages[p].len() && pages[p][k3] == all[k2];
            assert(pages[p][k3].normalized_url == u);
        }
        if exists|p: int, k: int| 0 <= p < pages.len() && 0 <= k < pages[p].len() && (#[trigger] pages[p][k]).normalized_url == u {
            let (p, k) = choose|p: int, k: int| 0 <= p < pages.len() && 0 <= k < pages[p].len() && (#[trigger] pages[p][k]).normalized_url == u;
            let y = pages[p][k];
            assert(pages[p].contains(y));
            assert(all.contains(y));
            let k2 = choose|k2: int| 0 <= k2 < all.len() && all[k2] == y;
            assert(sorted.contains(y));
            let k3 = choose|k3: int| 0 <= k3 < sorted.len() && sorted[k3] == y;
            assert((#[trigger] sorted[k3]).normalized_url == u);
            assert(has_url(unique, u));
            let i = choose|i: int| 0 <= i < unique.len() && (#[trigger] unique[i]).normalized_url == u;
            assert(out[i].normalized_url == u);
        }
    }
}

/// Of the records that share an address, `sort_deduplicate` keeps one that no
/// other sorts before: the earliest page, post and image.
pub proof fn law_sort_deduplicate_keeps_earliest(pages: Seq<Seq<RecordView>>)
    ensures
        forall|i: int, p: int, k: int|
            0 <= i < spec_sort_deduplicate(pages).len() && 0 <= p < pages.len() && 0 <= k < pages[p].len()
                && (#[trigger] pages[p][k]).normalized_url == (#[trigger] spec_sort_deduplicate(pages)[i]).normalized_url
                ==> key_le(spec_sort_deduplicate(pages)[i], pages[p][k]),
{
    let all = concat_pages(pages, pages.len() as int);
    let sorted = stable_sort(all, all.len() as int);
    let unique = dedup_first(sorted, all.len() as int);
    let out = spec_sort_deduplicate(pages);
    lemma_stable_sort(all, all.len() as int);
    lemma_dedup_first(sorted, all.len() as int);
    lemma_concat_pages(pages, pages.len() as int);
    assert forall|i: int, p: int, k: int|
        0 <= i < out.len() && 0 <= p < pages.len() && 0 <= k < pages[p].len()
            && (#[trigger] pages[p][k]).normalized_url == (#[trigger] out[i]).normalized_url
            implies key_le(out[i], pages[p][k]) by {
        let y = pages[p][k];
        assert(pages[p].contains(y));
        assert(all.contains(y));
        let k2 = choose|k2: int| 0 <= k2 < all.len() && all[k2] == y;
        assert(sorted.contains(y));
        let k3 = choose|k3: int| 0 <= k3 < sorted.len() && sorted[k3] == y;
        assert((#[trigger] sorted[k3]).normalized_url == (#[trigger] unique[i]).normalized_url);
        assert(key_le(unique[i], sorted[k3]));
    }
}

/// Each record `sort_deduplicate` returns is saved under a name that starts
/// with its 1-based position in five digits, then `_f`.
pub proof fn law_sort_deduplicate_numbers_files(pages: Seq<Seq<RecordView>>)
    ensures
        forall|i: int|
            0 <= i < spec_sort_deduplicate(pages).len() ==> crate::text::starts_with(
                (#[trigger] spec_sort_deduplicate(pages)[i]).target_file,
                zero_padded((i + 1) as nat, 5) + "_f"@,
            ),
{
    let out = spec_sort_deduplicate(pages);
    assert forall|i: int| 0 <= i < out.len() implies crate::text::starts_with(
        (#[trigger] out[i]).target_file,
        zero_padded((i + 1) as nat, 5) + "_f"@,
    ) by {
        let prefix = zero_padded((i + 1) as nat, 5) + "_f"@;
        let name = out[i].target_file;
        assert(name.subrange(0, prefix.len() as int) =~= prefix);
    }
}


// ---------------------------------------------------------------------------
// Thread pages
// ---------------------------------------------------------------------------

/// The element reached from `path` by the `i`-th match of `selector`.
pub open spec fn html_child(path: Seq<(Seq<char>, nat)>, selector: Seq<char>, i: int) -> Seq<(Seq<char>, nat)> {
    path.push((selector, i as nat))
}

/// A field of a post's `data-field` JSON: a string, or an unsigned number
/// in decimal.
pub open spec fn spec_metadata(src: Seq<char>, post: Seq<(Seq<char>, nat)>, key: Seq<char>) -> Option<Seq<char>> {
    match html_attr(src, post, "data-field"@) {
        None => None,
        Some(raw) => match json_parse_of(raw) {
            Err(_) => None,
            Ok(v) => match json_pointer(v, key) {
                Some(JsonValue::String(text)) => Some(text@),
                Some(JsonValue::Number(n)) => match n.as_u64 {
                    Some(k) => Some(decimal(k as nat)),
                    None => None,
                },
                _ => None,
            },
        },
    }
}

/// The author of a post.
pub open spec fn meta_author(src: Seq<char>, post: Seq<(Seq<char>, nat)>) -> Option<Seq<char>> {
    spec_metadata(src, post, "/author/user_name"@)
}

/// The id of a post: from its metadata, else its `data-pid` attribute.
pub open spec fn meta_post_id(src: Seq<char>, post: Seq<(Seq<char>, nat)>) -> Option<Seq<char>> {
    match spec_metadata(src, post, "/content/post_id"@) {
        Some(v) => Some(v),
        None => html_attr(src, post, "data-pid"@),
    }
}

/// The floor number of a post.
pub open spec fn meta_floor(src: Seq<char>, post: Seq<(Seq<char>, nat)>) -> Option<u64> {
    match spec_metadata(src, post, "/content/post_no"@) {
        Some(v) => parse_u64_spec(v),
        None => None,
    }
}

/// The addresses of the first `n` original-image links of a post body,
/// skipping links without an address.
pub open spec fn body_links(src: Seq<char>, body: Seq<(Seq<char>, nat)>, n: int) -> Seq<Seq<char>>
    decreases n,
{
    if n <= 0 {
        Seq::empty()
    } else {
        let prev = body_links(src, body, n - 1);
        match html_attr(src, html_child(body, "a[href*='/forum/pic/item/']"@, n - 1), "href"@) {
            Some(h) => prev.push(h),
            None => prev,
        }
    }
}

/// The record of the `m`-th image of a body, unless it is a smiley or an
/// emotion, or no candidate address of it is an image address.  The address
/// is the first of: `data-original`, the `m`-th original-image link,
/// `data-src`, `src`.
pub open spec fn html_image_record(
    src: Seq<char>,
    page: usize,
    post_order: int,
    post: Seq<(Seq<char>, nat)>,
    body: Seq<(Seq<char>, nat)>,
    links: Seq<Seq<char>>,
    m: int,
) -> Option<RecordView> {
    let img = html_child(body, "img"@, m);
    let classes = match html_attr(src, img, "class"@) {
        Some(c) => c,
        None => Seq::empty(),
    };
    if contains(classes, "BDE_Smiley"@) || contains(classes, "emotion"@) {
        None
    } else {
        let candidate = match html_attr(src, img, "data-original"@) {
            Some(v) => Some(v),
            None => if 0 <= m < links.len() {
                Some(links[m])
            } else {
                match html_attr(src, img, "data-src"@) {
                    Some(v) => Some(v),
                    None => html_attr(src, img, "src"@),
                }
            },
        };
        match candidate {
            None => None,
            Some(c) => match spec_original_url(c) {
                None => None,
                Some(u) => Some(
                    RecordView {
                        page,
                        post_order: post_order as usize,
                        image_order: m as usize,
                        floor: meta_floor(src, post),
                        author: meta_author(src, post),
                        post_id: meta_post_id(src, post),
                        original_url: c,
                        normalized_url: spec_normalized_key(u),
                        target_file: Seq::empty(),
                    },
                ),
            },
        }
    }
}

/// The records of the first `n` images of a body.
pub open spec fn body_images(
    src: Seq<char>,
    page: usize,
    post_order: int,
    post: Seq<(Seq<char>, nat)>,
    body: Seq<(Seq<char>, nat)>,
    links: Seq<Seq<char>>,
    n: int,
) -> Seq<RecordView>
    decreases n,
{
    if n <= 0 {
        Seq::empty()
    } else {
        let prev = body_images(src, page, post_order, post, body, links, n - 1);
        match html_image_record(src, page, post_order, post, body, links, n - 1) {
            Some(r) => prev.push(r),
            None => prev,
        }
    }
}

/// The records of one body of a post.
pub open spec fn body_records(
    src: Seq<char>,
    page: usize,
    post_order: int,
    post: Seq<(Seq<char>, nat)>,
    body: Seq<(Seq<char>, nat)>,
) -> Seq<RecordView> {
    let links = body_links(
        src,
        body,
        html_match_count(src, body, "a[href*='/forum/pic/item/']"@) as int,
    );
    body_images(src, page, post_order, post, body, links, html_match_count(src, body, "img"@) as int)
}

/// The records of the first `n` bodies of a post.
pub open spec fn post_bodies(src: Seq<char>, page: usize, post_order: int, post: Seq<(Seq<char>, nat)>, n: int) -> Seq<RecordView>
    decreases n,
{
    if n <= 0 {
        Seq::empty()
    } else {
        post_bodies(src, page, post_order, post, n - 1) + body_records(
            src,
            page,
            post_order,
            post,
            html_child(post, ".d_post_content, .j_d_post_content"@, n - 1),
        )
    }
}

/// The records of one post.
pub open spec fn post_records(src: Seq<char>, page: usize, i: int) -> Seq<RecordView> {
    let post = html_child(Seq::empty(), "div.l_post, div[data-field].l_post"@, i);
    post_bodies(src, page, i, post, html_match_count(src, post, ".d_post_content, .j_d_post_content"@) as int)
}

/// The records of the first `n` posts of a page.
pub open spec fn page_posts(src: Seq<char>, page: usize, n: int) -> Seq<RecordView>
    decreases n,
{
    if n <= 0 {
        Seq::empty()
    } else {
        page_posts(src, page, n - 1) + post_records(src, page, n - 1)
    }
}

/// The images of a server-rendered thread page, post by post, body by body,
/// image by image; their files are not named yet.
pub open spec fn spec_parse_page(src: Seq<char>, page: usize) -> Seq<RecordView> {
    page_posts(
        src,
        page,
        html_match_count(src, Seq::empty(), "div.l_post, div[data-field].l_post"@) as int,
    )
}

/// A field of a post's `data-field` JSON.
fn metadata(post: &HtmlElement, key: &str) -> (r: Option<String>)
    ensures
        opt_view(r) == spec_metadata(post.source(), post.path(), key@),
{
    let raw = match post.attr("data-field") {
        Some(v) => v,
        None => return None,
    };
    let value = match parse_json_text(raw.as_str()) {
        Ok(v) => v,
        Err(_) => return None,
    };
    match pointer(&value, key) {
        Some(JsonValue::String(text)) => Some(text.clone()),
        Some(JsonValue::Number(n)) => match n.as_u64 {
            Some(k) => Some(decimal_string(k)),
            None => None,
        },
        _ => None,
    }
}

/// The character sequences of a list of strings.
pub open spec fn strings_view(v: Seq<String>) -> Seq<Seq<char>> {
    v.map_values(|s: String| s@)
}

/// The original-image link addresses of a body.
fn collect_links(body: &HtmlElement) -> (r: Vec<String>)
    ensures
        strings_view(r@) == body_links(
            body.source(),
            body.path(),
            html_match_count(body.source(), body.path(), "a[href*='/forum/pic/item/']"@) as int,
        ),
{
    let nodes = body.select("a[href*='/forum/pic/item/']");
    let mut links: Vec<String> = Vec::new();
    let mut k: usize = 0;
    while k < nodes.len()
        invariant
            k <= nodes@.len(),
            nodes@.len() == html_match_count(body.source(), body.path(), "a[href*='/forum/pic/item/']"@),
            forall|q: int| 0 <= q < nodes@.len() ==> (#[trigger] nodes@[q]).source() == body.source()
                && nodes@[q].path() == html_child(body.path(), "a[href*='/forum/pic/item/']"@, q),
            strings_view(links@) == body_links(body.source(), body.path(), k as int),
        decreases nodes@.len() - k,
    {
        let ghost before = links@;
        match nodes[k].attr("href") {
            Some(h) => {
                links.push(h);
                assert(strings_view(links@) =~= strings_view(before).push(links@[links@.len() - 1]@));
            },
            None => {},
        }
        k = k + 1;
    }
    links
}

/// The record of one image of a body; see `html_image_record`.
fn image_record(
    img: &HtmlElement,
    page: usize,
    post_order: usize,
    m: usize,
    links: &Vec<String>,
    floor: Option<u64>,
    author: &Option<String>,
    post_id: &Option<String>,
    Ghost(post): Ghost<Seq<(Seq<char>, nat)>>,
    Ghost(body): Ghost<Seq<(Seq<char>, nat)>>,
) -> (r: Option<ImageRecord>)
    requires
        img.path() == html_child(body, "img"@, m as int),
        floor == meta_floor(img.source(), post),
        opt_view(*author) == meta_author(img.source(), post),
        opt_view(*post_id) == meta_post_id(img.source(), post),
    ensures
        match r {
            Some(rec) => html_image_record(img.source(), page, post_order as int, post, body, strings_view(links@), m as int) == Some(rec@),
            None => html_image_record(img.source(), page, post_order as int, post, body, strings_view(links@), m as int) is None,
        },
{
    let classes = match img.attr("class") {
        Some(c) => c,
        None => String::new(),
    };
    let class_chars = chars_of(classes.as_str());
    if contains_str(&class_chars, "BDE_Smiley") || contains_str(&class_chars, "emotion") {
        return None;
    }
    let candidate = match img.attr("data-original") {
        Some(v) => Some(v),
        None => if m < links.len() {
            Some(links[m].clone())
        } else {
            match img.attr("data-src") {
                Some(v) => Some(v),
                None => img.attr("src"),
            }
        },
    };
    let c = match candidate {
        Some(c) => c,
        None => return None,
    };
    let url = match original_url(c.as_str()) {
        Some(u) => u,
        None => return None,
    };
    Some(
        ImageRecord {
            page,
            post_order,
            image_order: m,
            floor,
            author: clone_opt(author),
            post_id: clone_opt(post_id),
            original_url: c,
            normalized_url: normalized_key(&url),
            target_file: String::new(),
        },
    )
}

/// The images of a server-rendered thread page; see `spec_parse_page`.
pub fn parse_page(html: &str, page: usize) -> (r: Vec<ImageRecord>)
    ensures
        records_view(r@) == spec_parse_page(html@, page),
{
    let doc = HtmlDocument::parse(html);
    let posts = doc.select("div.l_post, div[data-field].l_post");
    let ghost src = html@;
    let mut out: Vec<ImageRecord> = Vec::new();
    let mut i: usize = 0;
    while i < posts.len()
        invariant
            i <= posts@.len(),
            posts@.len() == html_match_count(src, Seq::empty(), "div.l_post, div[data-field].l_post"@),
            forall|q: int| 0 <= q < posts@.len() ==> (#[trigger] posts@[q]).source() == src
                && posts@[q].path() == html_child(Seq::empty(), "div.l_post, div[data-field].l_post"@, q),
            records_view(out@) == page_posts(src, page, i as int),
        decreases posts@.len() - i,
    {
        let post = &posts[i];
        let ghost post_path = post.path();
        let author = metadata(post, "/author/user_name");
        let post_id = match metadata(post, "/content/post_id") {
            Some(v) => Some(v),
            None => post.attr("data-pid"),
        };
        let floor = match metadata(post, "/content/post_no") {
            Some(v) => {
                let digits = chars_of(v.as_str());
                parse_u64(&digits)
            },
            None => None,
        };
        let bodies = post.select(".d_post_content, .j_d_post_content");
        let ghost head = records_view(out@);
        let mut j: usize = 0;
        while j < bodies.len()
            invariant
                i < posts@.len(),
                post_path == html_child(Seq::empty(), "div.l_post, div[data-field].l_post"@, i as int),
                j <= bodies@.len(),
                bodies@.len() == html_match_count(src, post_path, ".d_post_content, .j_d_post_content"@),
                forall|q: int| 0 <= q < bodies@.len() ==> (#[trigger] bodies@[q]).source() == src
                    && bodies@[q].path() == html_child(post_path, ".d_post_content, .j_d_post_content"@, q),
                floor == meta_floor(src, post_path),
                opt_view(author) == meta_author(src, post_path),
                opt_view(post_id) == meta_post_id(src, post_path),
                head == page_posts(src, page, i as int),
                records_view(out@) == head + post_bodies(src, page, i as int, post_path, j as int),
            decreases bodies@.len() - j,
        {
            let body = &bodies[j];
            let ghost body_path = body.path();
            let links = collect_links(body);
            let imgs = body.select("img");
            let ghost mid = records_view(out@);
            let mut m: usize = 0;
            while m < imgs.len()
                invariant
                    j < bodies@.len(),
                    body_path == html_child(post_path, ".d_post_content, .j_d_post_content"@, j as int),
                    m <= imgs@.len(),
                    imgs@.len() == html_match_count(src, body_path, "img"@),
                    forall|q: int| 0 <= q < imgs@.len() ==> (#[trigger] imgs@[q]).source() == src
                        && imgs@[q].path() == html_child(body_path, "img"@, q),
                    strings_view(links@) == body_links(
                        src,
                        body_path,
                        html_match_count(src, body_path, "a[href*='/forum/pic/item/']"@) as int,
                    ),
                    floor == meta_floor(src, post_path),
                    opt_view(author) == meta_author(src, post_path),
                    opt_view(post_id) == meta_post_id(src, post_path),
                    mid == head + post_bodies(src, page, i as int, post_path, j as int),
                    records_view(out@) == mid + body_images(
                        src,
                        page,
                        i as int,
                        post_path,
                        body_path,
                        strings_view(links@),
                        m as int,
                    ),
                decreases imgs@.len() - m,
            {
                let ghost before = out@;
                match image_record(&imgs[m], page, i, m, &links, floor, &author, &post_id, Ghost(post_path), Ghost(body_path)) {
                    Some(rec) => {
                        out.push(rec);
                        assert(records_view(out@) =~= records_view(before).push(out@[out@.len() - 1]@));
                    },
                    None => {},
                }
                m = m + 1;
            }
            assert(records_view(out@) =~= head + post_bodies(src, page, i as int, post_path, (j + 1) as int));
            j = j + 1;
        }
        assert(records_view(out@) =~= page_posts(src, page, (i + 1) as int));
        i = i + 1;
    }
    out
}

/// The text nodes `pieces[..n]`, one after another.
pub open spec fn joined(pieces: Seq<Seq<char>>, n: int) -> Seq<char>
    decreases n,
{
    if n <= 0 || n > pieces.len() {
        Seq::empty()
    } else {
        joined(pieces, n - 1) + pieces[n - 1]
    }
}

/// The number an element's whole text spells, once trimmed.
pub open spec fn element_number(src: Seq<char>, el: Seq<(Seq<char>, nat)>) -> Option<usize> {
    parse_usize_spec(trim(joined(html_text(src, el), html_text(src, el).len() as int)))
}

/// The reply counter: the last of the first `n` counter elements whose text is a number.
pub open spec fn last_reply_count(src: Seq<char>, n: int) -> Option<usize>
    decreases n,
{
    if n <= 0 {
        None
    } else {
        match element_number(src, html_child(Seq::empty(), "li.l_reply_num span.red"@, n - 1)) {
            Some(v) => Some(v),
            None => last_reply_count(src, n - 1),
        }
    }
}

/// The numbers among the first `n` text nodes, each trimmed.
pub open spec fn piece_numbers(pieces: Seq<Seq<char>>, n: int) -> Seq<usize>
    decreases n,
{
    if n <= 0 || n > pieces.len() {
        Seq::empty()
    } else {
        let prev = piece_numbers(pieces, n - 1);
        match parse_usize_spec(trim(pieces[n - 1])) {
            Some(v) => prev.push(v),
            None => prev,
        }
    }
}

/// The numeric values of the `pn` pairs among the first `n` query pairs.
pub open spec fn pn_numbers(pairs: Seq<(Seq<char>, Seq<char>)>, n: int) -> Seq<usize>
    decreases n,
{
    if n <= 0 || n > pairs.len() {
        Seq::empty()
    } else {
        let prev = pn_numbers(pairs, n - 1);
        if pairs[n - 1].0 == "pn"@ {
            match parse_usize_spec(pairs[n - 1].1) {
                Some(v) => prev.push(v),
                None => prev,
            }
        } else {
            prev
        }
    }
}

/// The page numbers a pager link's address gives: its `pn` values, the
/// address being taken relative to `https://tieba.baidu.com`.
pub open spec fn href_numbers(src: Seq<char>, el: Seq<(Seq<char>, nat)>) -> Seq<usize> {
    match html_attr(src, el, "href"@) {
        None => Seq::empty(),
        Some(h) => match url_parse_outcome("https://tieba.baidu.com"@ + h) {
            Err(_) => Seq::empty(),
            Ok(u) => pn_numbers(url_query_pairs_of(u), url_query_pairs_of(u).len() as int),
        },
    }
}

/// The page numbers one pager element gives: its numeric texts, then its address's.
pub open spec fn node_numbers(src: Seq<char>, el: Seq<(Seq<char>, nat)>) -> Seq<usize> {
    piece_numbers(html_text(src, el), html_text(src, el).len() as int) + href_numbers(src, el)
}

/// The page numbers of the first `n` matches of a pager selector.
pub open spec fn selector_numbers(src: Seq<char>, selector: Seq<char>, n: int) -> Seq<usize>
    decreases n,
{
    if n <= 0 {
        Seq::empty()
    } else {
        selector_numbers(src, selector, n - 1) + node_numbers(src, html_child(Seq::empty(), selector, n - 1))
    }
}

/// Every page number a thread page shows: the reply counter's, then those of
/// the "last page" link, then those of the pager.
pub open spec fn page_numbers(src: Seq<char>) -> Seq<usize> {
    let counter = match last_reply_count(
        src,
        html_match_count(src, Seq::empty(), "li.l_reply_num span.red"@) as int,
    ) {
        Some(v) => seq![v],
        None => Seq::empty(),
    };
    counter + selector_numbers(
        src,
        "a.last.pagination-item"@,
        html_match_count(src, Seq::empty(), "a.last.pagination-item"@) as int,
    ) + selector_numbers(src, ".l_pager a"@, html_match_count(src, Seq::empty(), ".l_pager a"@) as int)
}

/// The largest of `base` and the first `n` numbers.
pub open spec fn max_from(s: Seq<usize>, n: int, base: usize) -> usize
    decreases n,
{
    if n <= 0 || n > s.len() {
        base
    } else {
        let m = max_from(s, n - 1, base);
        if s[n - 1] > m {
            s[n - 1]
        } else {
            m
        }
    }
}

/// The page count of a server-rendered thread page: the largest page number
/// it shows, at least one.
pub open spec fn spec_total_pages(src: Seq<char>) -> usize {
    max_from(page_numbers(src), page_numbers(src).len() as int, 1)
}

/// The number an element's whole text spells, once trimmed.
fn element_number_exec(el: &HtmlElement) -> (r: Option<usize>)
    ensures
        r == element_number(el.source(), el.path()),
{
    let pieces = el.text();
    let ghost texts = html_text(el.source(), el.path());
    let mut all: Vec<char> = Vec::new();
    let mut k: usize = 0;
    while k < pieces.len()
        invariant
            k <= pieces@.len(),
            pieces@.len() == texts.len(),
            forall|q: int| 0 <= q < pieces@.len() ==> (#[trigger] pieces@[q])@ == texts[q],
            all@ == joined(texts, k as int),
        decreases pieces@.len() - k,
    {
        let c = chars_of(pieces[k].as_str());
        extend_chars(&mut all, &c);
        k = k + 1;
    }
    let t = trim_chars(&all);
    parse_usize(&t)
}

/// Appends the page numbers of every match of a pager selector.
fn push_selector_numbers(doc: &HtmlDocument, selector: &str, numbers: &mut Vec<usize>)
    ensures
        final(numbers)@ == old(numbers)@ + selector_numbers(
            doc.source(),
            selector@,
            html_match_count(doc.source(), Seq::empty(), selector@) as int,
        ),
{
    let nodes = doc.select(selector);
    let ghost src = doc.source();
    let ghost start = numbers@;
    let mut i: usize = 0;
    while i < nodes.len()
        invariant
            i <= nodes@.len(),
            nodes@.len() == html_match_count(src, Seq::empty(), selector@),
            forall|q: int| 0 <= q < nodes@.len() ==> (#[trigger] nodes@[q]).source() == src
                && nodes@[q].path() == html_child(Seq::empty(), selector@, q),
            numbers@ == start + selector_numbers(src, selector@, i as int),
        decreases nodes@.len() - i,
    {
        let node = &nodes[i];
        let ghost before = numbers@;
        let pieces = node.text();
        let ghost texts = html_text(src, node.path());
        let mut k: usize = 0;
        while k < pieces.len()
            invariant
                k <= pieces@.len(),
                pieces@.len() == texts.len(),
                forall|q: int| 0 <= q < pieces@.len() ==> (#[trigger] pieces@[q])@ == texts[q],
                numbers@ == before + piece_numbers(texts, k as int),
            decreases pieces@.len() - k,
        {
            let c = chars_of(pieces[k].as_str());
            let t = trim_chars(&c);
            match parse_usize(&t) {
                Some(v) => {
                    numbers.push(v);
                },
                None => {},
            }
            assert(numbers@ =~= before + piece_numbers(texts, (k + 1) as int));
            k = k + 1;
        }
        let ghost mid = numbers@;
        match node.attr("href") {
            Some(h) => {
                let link = concat("https://tieba.baidu.com", h.as_str());
                match WebUrl::parse(link.as_str()) {
                    Ok(url) => {
                        let pairs = url.query_pairs();
                        let ghost qp = url_query_pairs_of(url@);
                        let mut p: usize = 0;
                        while p < pairs.len()
                            invariant
                                p <= pairs@.len(),
                                pairs@.len() == qp.len(),
                                forall|q: int| 0 <= q < pairs@.len() ==> (#[trigger] pairs@[q]).0@ == qp[q].0
                                    && pairs@[q].1@ == qp[q].1,
                                numbers@ == mid + pn_numbers(qp, p as int),
                            decreases pairs@.len() - p,
                        {
                            let key = chars_of(pairs[p].0.as_str());
                            if equals_str(&key, "pn") {
                                let value = chars_of(pairs[p].1.as_str());
                                match parse_usize(&value) {
                                    Some(v) => {
                                        numbers.push(v);
                                    },
                                    None => {},
                                }
                            }
                            assert(numbers@ =~= mid + pn_numbers(qp, (p + 1) as int));
                            p = p + 1;
                        }
                    },
                    Err(_) => {},
                }
            },
            None => {},
        }
        assert(numbers@ =~= start + selector_numbers(src, selector@, (i + 1) as int));
        i = i + 1;
    }
}

/// The page count of a server-rendered thread page; see `spec_total_pages`.
pub fn total_pages(html: &str) -> (r: usize)
    ensures
        r == spec_total_pages(html@),
        r >= 1,
{
    let doc = HtmlDocument::parse(html);
    let ghost src = html@;
    let mut numbers: Vec<usize> = Vec::new();
    let counters = doc.select("li.l_reply_num span.red");
    let mut last: Option<usize> = None;
    let mut i: usize = 0;
    while i < counters.len()
        invariant
            i <= counters@.len(),
            counters@.len() == html_match_count(src, Seq::empty(), "li.l_reply_num span.red"@),
            forall|q: int| 0 <= q < counters@.len() ==> (#[trigger] counters@[q]).source() == src
                && counters@[q].path() == html_child(Seq::empty(), "li.l_reply_num span.red"@, q),
            last == last_reply_count(src, i as int),
        decreases counters@.len() - i,
    {
        match element_number_exec(&counters[i]) {
            Some(v) => {
                last = Some(v);
            },
            None => {},
        }
        i = i + 1;
    }
    match last {
        Some(v) => numbers.push(v),
        None => {},
    }
    push_selector_numbers(&doc, "a.last.pagination-item", &mut numbers);
    push_selector_numbers(&doc, ".l_pager a", &mut numbers);
    assert(numbers@ =~= page_numbers(src));
    let mut best: usize = 1;
    let mut k: usize = 0;
    while k < numbers.len()
        invariant
            k <= numbers@.len(),
            best == max_from(numbers@, k as int, 1),
            best >= 1,
        decreases numbers@.len() - k,
    {
        if numbers[k] > best {
            best = numbers[k];
        }
        k = k + 1;
    }
    best
}

proof fn lemma_max_from(s: Seq<usize>, n: int, base: usize)
    requires
        0 <= n <= s.len(),
    ensures
        max_from(s, n, base) >= base,
        forall|k: int| 0 <= k < n ==> s[k] <= max_from(s, n, base),
        max_from(s, n, base) == base || exists|k: int| 0 <= k < n && s[k] == max_from(s, n, base),
    decreases n,
{
    if n > 0 {
        lemma_max_from(s, n - 1, base);
    }
}

/// The page count of a thread page is the largest page number it shows, and
/// at least one.
pub proof fn law_total_pages_is_the_largest(src: Seq<char>)
    ensures
        spec_total_pages(src) >= 1,
        forall|k: int| 0 <= k < page_numbers(src).len() ==> page_numbers(src)[k] <= spec_total_pages(src),
        spec_total_pages(src) == 1 || page_numbers(src).contains(spec_total_pages(src)),
{
    let s = page_numbers(src);
    lemma_max_from(s, s.len() as int, 1);
    if spec_total_pages(src) != 1 {
        let k = choose|k: int| 0 <= k < s.len() && s[k] == max_from(s, s.len() as int, 1);
        assert(s.contains(s[k]));
    }
}

/// The records of a page API response text; see `spec_parse_api_page_text`.
pub fn parse_api_page_text(body: &str, page: usize) -> (r: Result<Vec<ImageRecord>>)
    ensures
        match r {
            Ok(v) => spec_parse_api_page_text(body@, page) == Ok::<Seq<RecordView>, ErrorView>(records_view(v@)),
            Err(e) => spec_parse_api_page_text(body@, page) == Err::<Seq<RecordView>, ErrorView>(e@),
        },
{
    match parse_json_text(body) {
        Err(m) => Err(AppError::Json(m)),
        Ok(v) => parse_api_page(&v, page),
    }
}


/// Which address an `<img>` of a post body is downloaded from: its
/// `data-original` when it has one; otherwise the body's original-image link
/// at the same position; otherwise its `data-src` (the lazily loaded
/// address); only without any of these its `src`.  A record keeps the chosen
/// address as its original, the normalized form of the image it denotes as
/// its key, and the image's position; and an image that is no smiley or
/// emotion gets a record whenever its chosen address denotes an image.
pub proof fn law_image_source_priority(
    src: Seq<char>,
    page: usize,
    post_order: int,
    post: Seq<(Seq<char>, nat)>,
    body: Seq<(Seq<char>, nat)>,
    links: Seq<Seq<char>>,
    m: int,
)
    requires
        0 <= m,
    ensures
        ({
            let img = html_child(body, "img"@, m);
            let rec = html_image_record(src, page, post_order, post, body, links, m);
            let original = html_attr(src, img, "data-original"@);
            let lazy = html_attr(src, img, "data-src"@);
            let plain = html_attr(src, img, "src"@);
            let classes = match html_attr(src, img, "class"@) {
                Some(c) => c,
                None => Seq::empty(),
            };
            let decoration = contains(classes, "BDE_Smiley"@) || contains(classes, "emotion"@);
            let chosen = if original is Some {
                original
            } else if m < links.len() {
                Some(links[m])
            } else if lazy is Some {
                lazy
            } else {
                plain
            };
            &&& (original is Some && rec is Some) ==> rec->0.original_url == original->0
            &&& (original is None && m < links.len() && rec is Some) ==> rec->0.original_url == links[m]
            &&& (original is None && m >= links.len() && lazy is Some && rec is Some) ==> rec->0.original_url
                == lazy->0
            &&& (original is None && m >= links.len() && lazy is None && rec is Some) ==> Some(
                rec->0.original_url,
            ) == plain
            &&& rec is Some ==> {
                &&& !decoration
                &&& spec_original_url(rec->0.original_url) is Some
                &&& rec->0.normalized_url == spec_normalized_key(spec_original_url(rec->0.original_url)->0)
                &&& rec->0.image_order == m as usize
                &&& rec->0.page == page
                &&& rec->0.target_file.len() == 0
            }
            &&& (!decoration && chosen is Some && spec_original_url(chosen->0) is Some) ==> rec is Some
        }),
{
}

/// Which address a page API image is downloaded from: the first of
/// `origin_src`, `big_cdn_src`, `cdn_src_active` and `cdn_src` that is a
/// string; the original-size `origin_src` wins whenever it is there.
pub proof fn law_api_source_priority(c: JsonValue)
    ensures
        ({
            let origin = json_str(json_get(c, "origin_src"@));
            let big = json_str(json_get(c, "big_cdn_src"@));
            let active = json_str(json_get(c, "cdn_src_active"@));
            let small = json_str(json_get(c, "cdn_src"@));
            &&& origin is Some ==> api_candidate(c) == origin
            &&& (origin is None && big is Some) ==> api_candidate(c) == big
            &&& (origin is None && big is None && active is Some) ==> api_candidate(c) == active
            &&& (origin is None && big is None && active is None) ==> api_candidate(c) == small
        }),
{
}

/// Each image item of a post adds at most one record, after those of the
/// items before it: a type-3 item whose `origin_src` denotes an image adds
/// exactly one, with `origin_src` as its original address, the normalized
/// image as its key, and its rank among the post's records as its order; an
/// item of any other type adds none.
pub proof fn law_api_post_records(info: PostInfo, contents: Seq<JsonValue>, m: int)
    requires
        1 <= m <= contents.len(),
    ensures
        ({
            let before = api_post_records(info, contents, m - 1);
            let after = api_post_records(info, contents, m);
            let c = contents[m - 1];
            let origin = json_str(json_get(c, "origin_src"@));
            &&& after.len() == before.len() || after.len() == before.len() + 1
            &&& after.take(before.len() as int) == before
            &&& json_u64(json_get(c, "type"@)) != Some(3u64) ==> after == before
            &&& (json_u64(json_get(c, "type"@)) == Some(3u64) && origin is Some && spec_original_url(origin->0) is Some) ==> {
                &&& after.len() == before.len() + 1
                &&& after.last().original_url == origin->0
                &&& after.last().normalized_url == spec_normalized_key(spec_original_url(origin->0)->0)
                &&& after.last().image_order == before.len() as usize
                &&& after.last().page == info.page
                &&& after.last().post_order == info.post_order
            }
        }),
{
    let before = api_post_records(info, contents, m - 1);
    let after = api_post_records(info, contents, m);
    assert(after.take(before.len() as int) =~= before);
}

} // verus!
