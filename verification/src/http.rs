//! HTTP status codes: how they read in messages and which ones the
//! downloader tells apart.
use vstd::prelude::*;
use crate::error::{AppError, ErrorView, Result};
use crate::number::{decimal, decimal_string};
use crate::text::{chars_of, concat, string_of, trim, trim_chars};

verus! {

/// The reason phrase that `reqwest::StatusCode` has for a code, if any.
pub uninterp spec fn canonical_reason_of(code: u16) -> Option<Seq<char>>;

/// `StatusCode::from_u16(code)` then `canonical_reason`: the phrase of the
/// crate's table, or `None` for a code it does not accept or has no phrase for.
#[verifier::external_body]
fn canonical_reason(code: u16) -> (r: Option<String>)
    ensures
        match r {
            Some(s) => canonical_reason_of(code) == Some(s@),
            None => canonical_reason_of(code) is None,
        },
{
    reqwest::StatusCode::from_u16(code).ok().and_then(|s| s.canonical_reason()).map(|s| s.to_owned())
}

/// How a status code displays: its number, a space, then its reason phrase.
pub open spec fn status_display(code: u16) -> Seq<char> {
    decimal(code as nat) + " "@ + match canonical_reason_of(code) {
        Some(r) => r,
        None => "<unknown status code>"@,
    }
}

/// The text of a status code, as `StatusCode` displays it.
pub fn status_text(code: u16) -> (r: String)
    ensures
        r@ == status_display(code),
{
    let number = decimal_string(code as u64);
    let head = concat(number.as_str(), " ");
    match canonical_reason(code) {
        Some(reason) => concat(head.as_str(), reason.as_str()),
        None => concat(head.as_str(), "<unknown status code>"),
    }
}

/// A `2xx` status.
pub open spec fn is_success(code: u16) -> bool {
    200 <= code <= 299
}

/// `403 Forbidden` or `429 Too Many Requests`: the server refuses for now.
pub open spec fn is_refusal(code: u16) -> bool {
    code == 403 || code == 429
}

/// A character a header value may hold: a tab, or anything but the other
/// ASCII control characters (every byte of a longer UTF-8 character is above 127).
pub open spec fn header_char_allowed(c: char) -> bool {
    c == '\t' || (c as u32 >= 32 && c as u32 != 127)
}

/// Whether `reqwest::header::HeaderValue::from_str` accepts the text: it
/// checks that every byte is a tab, or at least 32 and not 127.
#[verifier::external_body]
fn header_value_accepted(value: &str) -> (r: bool)
    ensures
        r == forall|i: int| 0 <= i < value@.len() ==> header_char_allowed(#[trigger] value@[i]),
{
    reqwest::header::HeaderValue::from_str(value).is_ok()
}

/// The `Cookie` header a client sends: the trimmed cookie, refused when it
/// holds a character that no header value may hold.
pub fn request_cookie(cookie: &str) -> (r: Result<String>)
    ensures
        match r {
            Ok(v) => v@ == trim(cookie@) && forall|i: int| 0 <= i < v@.len() ==> header_char_allowed(
                #[trigger] v@[i],
            ),
            Err(e) => e@ == ErrorView::InvalidCookie("包含无效请求头字符"@) && exists|i: int|
                0 <= i < trim(cookie@).len() && !header_char_allowed(#[trigger] trim(cookie@)[i]),
        },
{
    let chars = chars_of(cookie);
    let trimmed = trim_chars(&chars);
    let value = string_of(&trimmed);
    if header_value_accepted(value.as_str()) {
        Ok(value)
    } else {
        Err(AppError::InvalidCookie("包含无效请求头字符".to_owned()))
    }
}

} // verus!
