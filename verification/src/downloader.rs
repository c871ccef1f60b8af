//! Resumable image downloads: reading `Content-Range`, recognising image
//! responses, and the decisions of a download attempt.
use vstd::prelude::*;
use crate::error::{AppError, ErrorView};
use crate::http::{is_refusal, is_success, status_display, status_text};
use crate::image_url::{
    extension_from_content_type, extension_from_url, spec_extension_from_content_type,
    spec_extension_from_url,
};
use crate::number::{decimal, decimal_string, parse_u64, parse_u64_spec, parse_unsigned_upto};
use crate::paths::{file_extension, file_extension_exec, join_path, join_path_exec, with_extension, with_extension_exec};
use crate::text::{
    chars_of, char_pos_from, char_pos_from_exec, chars_range, concat, equals_str, lemma_char_pos_from,
    opt_view, split_once, starts_with, starts_with_str, string_of,
};
use crate::weburl::{url_parse_outcome, WebUrl};

verus! {

/// What became of one image.
#[derive(Debug)]
pub enum DownloadOutcome {
    Completed { bytes: u64, path: String },
    Skipped { path: String },
}

/// A `Content-Range` value `bytes START-END/TOTAL`, with `TOTAL` possibly `*`.
pub open spec fn spec_parse_content_range(value: Seq<char>) -> Option<(u64, u64, Option<u64>)> {
    if !starts_with(value, "bytes "@) {
        None
    } else {
        match split_once(value.skip(6), '/') {
            None => None,
            Some((range, total)) => match split_once(range, '-') {
                None => None,
                Some((start, end)) => match (parse_u64_spec(start), parse_u64_spec(end)) {
                    (Some(s), Some(e)) => Some(
                        (
                            s,
                            e,
                            if total == "*"@ {
                                None
                            } else {
                                parse_u64_spec(total)
                            },
                        ),
                    ),
                    _ => None,
                },
            },
        }
    }
}

/// `split_once` computed on a character slice.
pub fn split_once_exec(s: &[char], c: char) -> (r: Option<(Vec<char>, Vec<char>)>)
    ensures
        match r {
            Some((a, b)) => split_once(s@, c) == Some((a@, b@)),
            None => split_once(s@, c) is None,
        },
{
    proof {
        lemma_char_pos_from(s@, c, 0);
    }
    match char_pos_from_exec(s, c, 0) {
        None => None,
        Some(i) => {
            let a = chars_range(s, 0, i);
            let n = s.len();
            assert(i < n);
            let b = chars_range(s, i + 1, n);
            assert(a@ =~= s@.take(i as int));
            assert(b@ =~= s@.skip(i + 1));
            Some((a, b))
        },
    }
}

fn parse_u64_opt(s: &[char]) -> (r: Option<u64>)
    ensures
        r == parse_u64_spec(s@),
{
    match parse_u64(s) {
        Some(v) => Some(v),
        None => None,
    }
}

/// Reads a `Content-Range` value as `(start, end, total)`.
pub fn parse_content_range(value: &str) -> (r: Option<(u64, u64, Option<u64>)>)
    ensures
        r == spec_parse_content_range(value@),
{
    let v = chars_of(value);
    if !starts_with_str(&v, "bytes ") {
        return None;
    }
    proof {
        reveal_strlit("bytes ");
    }
    let rest = chars_range(&v, 6, v.len());
    assert(rest@ =~= v@.skip(6));
    let (range, total) = match split_once_exec(&rest, '/') {
        Some(p) => p,
        None => return None,
    };
    let (start, end) = match split_once_exec(&range, '-') {
        Some(p) => p,
        None => return None,
    };
    let s = match parse_u64_opt(&start) {
        Some(x) => x,
        None => return None,
    };
    let e = match parse_u64_opt(&end) {
        Some(x) => x,
        None => return None,
    };
    let t = if equals_str(&total, "*") {
        None
    } else {
        parse_u64_opt(&total)
    };
    Some((s, e, t))
}

/// Whether a `Content-Type` names a recognised image type.
pub fn response_is_image(content_type: Option<&str>) -> (r: bool)
    ensures
        r == (content_type is Some && spec_extension_from_content_type(Some(content_type->0@)) is Some),
{
    extension_from_content_type(content_type).is_some()
}

/// `ext.part`: the name the partial file gets from an extension.
pub open spec fn part_extension(ext: Seq<char>) -> Seq<char> {
    ext + ".part"@
}

/// The partial file beside a target file name: the name's extension (`jpg`
/// when it has none) followed by `.part`.
pub open spec fn spec_part_name(target: Seq<char>) -> Seq<char> {
    let ext = match file_extension(target) {
        Some(e) => e,
        None => "jpg"@,
    };
    with_extension(target, part_extension(ext))
}

/// Where an image is saved and where its bytes gather until it is complete.
pub struct DownloadPaths {
    pub intended: String,
    pub part: String,
}

/// The paths of an image in the output directory.  Target names are plain
/// file names, as `sort_deduplicate` gives them.
pub fn download_paths(output: &str, target_file: &str) -> (r: DownloadPaths)
    ensures
        r.intended@ == join_path(output@, target_file@),
        r.part@ == join_path(output@, spec_part_name(target_file@)),
{
    let intended = join_path_exec(output, target_file);
    let name = chars_of(target_file);
    let ext: Vec<char> = match file_extension_exec(&name) {
        Some(e) => e,
        None => chars_of("jpg"),
    };
    let ext_str = string_of(&ext);
    let with_part = concat(ext_str.as_str(), ".part");
    let with_part_chars = chars_of(with_part.as_str());
    let part_name = with_extension_exec(&name, &with_part_chars);
    let part_name_str = string_of(&part_name);
    let part = join_path_exec(output, part_name_str.as_str());
    DownloadPaths { intended, part }
}

/// A saved file of this length is complete: a non-empty file is never
/// downloaded again.
pub fn is_complete_file(length: Option<u64>) -> (r: bool)
    ensures
        r == (length matches Some(n) && n > 0),
{
    match length {
        Some(n) => n > 0,
        None => false,
    }
}

/// The `Range` header that resumes after `existing` bytes.
pub open spec fn spec_range_header(existing: u64) -> Option<Seq<char>> {
    if existing > 0 {
        Some("bytes="@ + decimal(existing as nat) + "-"@)
    } else {
        None
    }
}

/// The request for an image whose partial file has this length (none when
/// there is no partial file): how many bytes are kept, and the `Range`
/// header that asks for the rest.
pub fn resume_request(part_length: Option<u64>) -> (r: (u64, Option<String>))
    ensures
        r.0 == (match part_length {
            Some(n) => n,
            None => 0,
        }),
        match r.1 {
            Some(h) => spec_range_header(r.0) == Some(h@),
            None => spec_range_header(r.0) is None,
        },
{
    let existing = match part_length {
        Some(n) => n,
        None => 0,
    };
    if existing > 0 {
        let number = decimal_string(existing);
        let head = concat("bytes=", number.as_str());
        (existing, Some(concat(head.as_str(), "-")))
    } else {
        (existing, None)
    }
}

/// The headers of an image response that the download reads, each as text
/// when it is present and readable.
pub struct ImageResponse {
    pub status: u16,
    pub retry_after: Option<String>,
    pub content_range: Option<String>,
    pub content_type: Option<String>,
}

/// What follows an image response.
pub enum ResponseStep {
    /// Stop with this failure.
    Fail(AppError),
    /// The partial file already holds every byte: it becomes the image.
    CompleteFromPart { bytes: u64 },
    /// The partial file cannot be trusted: remove it, then fail.
    DiscardPart(AppError),
    /// Write the body to the partial file, after the bytes it keeps when
    /// `append`, from its start otherwise; `written` counts what it then holds.
    Write { append: bool, written: u64 },
}

/// A response step with its failure as a view.
pub enum StepView {
    Fail(ErrorView),
    CompleteFromPart(u64),
    DiscardPart(ErrorView),
    Write(bool, u64),
}

impl View for ResponseStep {
    type V = StepView;

    open spec fn view(&self) -> StepView {
        match self {
            ResponseStep::Fail(e) => StepView::Fail(e@),
            ResponseStep::CompleteFromPart { bytes } => StepView::CompleteFromPart(*bytes),
            ResponseStep::DiscardPart(e) => StepView::DiscardPart(e@),
            ResponseStep::Write { append, written } => StepView::Write(*append, *written),
        }
    }
}

/// The total of a `416` response's `Content-Range: bytes */TOTAL`.
pub open spec fn unsatisfied_total(content_range: Option<Seq<char>>) -> Option<u64> {
    match content_range {
        Some(v) => if starts_with(v, "bytes */"@) {
            parse_u64_spec(v.skip(8))
        } else {
            None
        },
        None => None,
    }
}

/// What follows a response to the request for an image whose partial file
/// keeps `existing` bytes:
/// - `403` or `429`: throttled, waiting `Retry-After` seconds or 30;
/// - `416`: complete when the server's total is exactly `existing`, else the
///   partial file is dropped;
/// - any other status but `2xx`: a page access failure naming the status;
/// - a response that is no recognised image: refused, naming its type;
/// - `206` while resuming: appended, once `Content-Range` starts at `existing`;
/// - otherwise the body replaces the partial file.
pub open spec fn spec_response_step(
    status: u16,
    retry_after: Option<Seq<char>>,
    content_range: Option<Seq<char>>,
    content_type: Option<Seq<char>>,
    existing: u64,
) -> StepView {
    if is_refusal(status) {
        StepView::Fail(
            ErrorView::RateLimited {
                status,
                retry_after_secs: match retry_after {
                    Some(v) => match parse_u64_spec(v) {
                        Some(n) => n,
                        None => 30,
                    },
                    None => 30,
                },
            },
        )
    } else if status == 416 {
        if unsatisfied_total(content_range) == Some(existing) {
            StepView::CompleteFromPart(existing)
        } else {
            StepView::DiscardPart(ErrorView::InvalidRange("服务器返回 416，且本地大小无法确认完整"@))
        }
    } else if !is_success(status) {
        StepView::Fail(ErrorView::PageAccess("图片 HTTP "@ + status_display(status)))
    } else if spec_extension_from_content_type(content_type) is None {
        StepView::Fail(
            ErrorView::NotImage(
                match content_type {
                    Some(t) => t,
                    None => "缺少 Content-Type"@,
                },
            ),
        )
    } else if existing > 0 && status == 206 {
        match content_range {
            None => StepView::Fail(ErrorView::InvalidRange("206 缺少有效 Content-Range"@)),
            Some(v) => match spec_parse_content_range(v) {
                None => StepView::Fail(ErrorView::InvalidRange("206 缺少有效 Content-Range"@)),
                Some(range) => if range.0 != existing {
                    StepView::Fail(
                        ErrorView::InvalidRange(
                            "期望从 "@ + decimal(existing as nat) + " 开始，实际为 "@ + decimal(
                                range.0 as nat,
                            ),
                        ),
                    )
                } else {
                    StepView::Write(true, existing)
                },
            },
        }
    } else {
        StepView::Write(false, 0)
    }
}

fn retry_after_or_default(retry_after: &Option<String>) -> (r: u64)
    ensures
        r == (match opt_view(*retry_after) {
            Some(v) => match parse_u64_spec(v) {
                Some(n) => n,
                None => 30,
            },
            None => 30,
        }),
{
    match retry_after {
        Some(v) => {
            let c = chars_of(v.as_str());
            match parse_u64_opt(&c) {
                Some(n) => n,
                None => 30,
            }
        },
        None => 30,
    }
}

fn unsatisfied_total_exec(content_range: &Option<String>) -> (r: Option<u64>)
    ensures
        r == unsatisfied_total(opt_view(*content_range)),
{
    match content_range {
        Some(v) => {
            let c = chars_of(v.as_str());
            if starts_with_str(&c, "bytes */") {
                proof {
                    reveal_strlit("bytes */");
                }
                let rest = chars_range(&c, 8, c.len());
                assert(rest@ =~= c@.skip(8));
                parse_u64_opt(&rest)
            } else {
                None
            }
        },
        None => None,
    }
}

/// Decides what follows an image response; see `spec_response_step`.
pub fn response_step(response: &ImageResponse, existing: u64) -> (r: ResponseStep)
    ensures
        r@ == spec_response_step(
            response.status,
            opt_view(response.retry_after),
            opt_view(response.content_range),
            opt_view(response.content_type),
            existing,
        ),
{
    let status = response.status;
    if status == 403 || status == 429 {
        let secs = retry_after_or_default(&response.retry_after);
        return ResponseStep::Fail(AppError::RateLimited { status, retry_after_secs: secs });
    }
    if status == 416 {
        if unsatisfied_total_exec(&response.content_range) == Some(existing) {
            return ResponseStep::CompleteFromPart { bytes: existing };
        }
        return ResponseStep::DiscardPart(
            AppError::InvalidRange("服务器返回 416，且本地大小无法确认完整".to_owned()),
        );
    }
    if !(200 <= status && status <= 299) {
        let text = status_text(status);
        return ResponseStep::Fail(AppError::PageAccess(concat("图片 HTTP ", text.as_str())));
    }
    let content_type = match &response.content_type {
        Some(t) => Some(t.as_str()),
        None => None,
    };
    if !response_is_image(content_type) {
        return ResponseStep::Fail(
            AppError::NotImage(
                match &response.content_type {
                    Some(t) => t.clone(),
                    None => "缺少 Content-Type".to_owned(),
                },
            ),
        );
    }
    if existing > 0 && status == 206 {
        let range = match &response.content_range {
            Some(v) => parse_content_range(v.as_str()),
            None => None,
        };
        match range {
            None => ResponseStep::Fail(AppError::InvalidRange("206 缺少有效 Content-Range".to_owned())),
            Some((start, _, _)) => if start != existing {
                let a = concat("期望从 ", decimal_string(existing).as_str());
                let b = concat(a.as_str(), " 开始，实际为 ");
                ResponseStep::Fail(AppError::InvalidRange(concat(b.as_str(), decimal_string(start).as_str())))
            } else {
                ResponseStep::Write { append: true, written: existing }
            },
        }
    } else {
        ResponseStep::Write { append: false, written: 0 }
    }
}

/// The extension a finished image is saved under: the response's image type,
/// else the one its address names, else `jpg`.
pub open spec fn final_extension(content_type: Option<Seq<char>>, url: Seq<char>) -> Seq<char> {
    match spec_extension_from_content_type(content_type) {
        Some(e) => e,
        None => match spec_extension_from_url(url) {
            Some(e) => e,
            None => "jpg"@,
        },
    }
}

/// Where a download that wrote `written` bytes ends: an empty body is no
/// image; an address the `url` crate refuses fails with its message; else
/// the image's path in `output`, named after its target with the extension
/// of `final_extension`.
pub open spec fn spec_finish_download(
    written: u64,
    content_type: Option<Seq<char>>,
    normalized_url: Seq<char>,
    output: Seq<char>,
    target_file: Seq<char>,
) -> std::result::Result<Seq<char>, ErrorView> {
    if written == 0 {
        Err(ErrorView::NotImage("响应体为空"@))
    } else {
        match url_parse_outcome(normalized_url) {
            Err(m) => Err(ErrorView::Url(m)),
            Ok(u) => Ok(join_path(output, with_extension(target_file, final_extension(content_type, u)))),
        }
    }
}

/// The path a finished download is renamed to; see `spec_finish_download`.
pub fn finish_download(
    written: u64,
    content_type: Option<&str>,
    normalized_url: &str,
    output: &str,
    target_file: &str,
) -> (r: std::result::Result<String, AppError>)
    ensures
        match r {
            Ok(p) => spec_finish_download(
                written,
                match content_type {
                    Some(t) => Some(t@),
                    None => None,
                },
                normalized_url@,
                output@,
                target_file@,
            ) == Ok::<Seq<char>, ErrorView>(p@),
            Err(e) => spec_finish_download(
                written,
                match content_type {
                    Some(t) => Some(t@),
                    None => None,
                },
                normalized_url@,
                output@,
                target_file@,
            ) == Err::<Seq<char>, ErrorView>(e@),
        },
{
    if written == 0 {
        return Err(AppError::NotImage("响应体为空".to_owned()));
    }
    let url = match WebUrl::parse(normalized_url) {
        Ok(u) => u,
        Err(m) => return Err(AppError::Url(m)),
    };
    let ext: &str = match extension_from_content_type(content_type) {
        Some(e) => e,
        None => match extension_from_url(&url) {
            Some(e) => e,
            None => "jpg",
        },
    };
    let name = chars_of(target_file);
    let ext_chars = chars_of(ext);
    let renamed = with_extension_exec(&name, &ext_chars);
    let renamed_str = string_of(&renamed);
    Ok(join_path_exec(output, renamed_str.as_str()))
}

/// A body is written only for a successful response of a recognised image
/// type, and appended to the partial file only for a `206` whose
/// `Content-Range` starts exactly after the bytes already kept.
pub proof fn law_writes_only_checked_images(
    status: u16,
    retry_after: Option<Seq<char>>,
    content_range: Option<Seq<char>>,
    content_type: Option<Seq<char>>,
    existing: u64,
)
    ensures
        spec_response_step(status, retry_after, content_range, content_type, existing) matches StepView::Write(
            append,
            written,
        ) ==> {
            &&& is_success(status)
            &&& spec_extension_from_content_type(content_type) is Some
            &&& append ==> {
                &&& status == 206 && existing > 0 && written == existing
                &&& content_range is Some
                &&& spec_parse_content_range(content_range->0) is Some
                &&& (spec_parse_content_range(content_range->0)->0).0 == existing
            }
            &&& !append ==> written == 0
        },
{
}

/// A partial file becomes the image on a `416` only when the server's total
/// is exactly what the file holds.
pub proof fn law_416_completes_only_whole_files(
    retry_after: Option<Seq<char>>,
    content_range: Option<Seq<char>>,
    content_type: Option<Seq<char>>,
    existing: u64,
)
    ensures
        spec_response_step(416, retry_after, content_range, content_type, existing) matches StepView::CompleteFromPart(
            bytes,
        ) ==> bytes == existing && unsatisfied_total(content_range) == Some(existing),
{
}

/// The partial file never has the image's own name: its name is longer and
/// ends in `.part` (a name that is no file name of its own, such as `..`,
/// is left as it is by `with_extension` and is excluded).
pub proof fn law_partial_file_is_apart(target: Seq<char>)
    requires
        !crate::paths::is_special_name(target),
    ensures
        spec_part_name(target).len() > target.len(),
        crate::text::ends_with(spec_part_name(target), ".part"@),
{
    reveal_strlit(".part");
    reveal_strlit("jpg");
    crate::text::lemma_last_char_pos(target, '.', target.len() as int);
    let part = spec_part_name(target);
    let ext = match file_extension(target) {
        Some(e) => e,
        None => "jpg"@,
    };
    let stem = match file_extension(target) {
        Some(e) => target.take(target.len() - e.len() - 1),
        None => target,
    };
    assert(part == stem + seq!['.'] + (ext + ".part"@));
    assert(part.subrange(part.len() - 5, part.len() as int) =~= ".part"@);
}

} // verus!
