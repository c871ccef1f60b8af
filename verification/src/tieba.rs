//! Tieba thread addresses: recognising a thread link and building page links.
use vstd::prelude::*;
use crate::error::{AppError, Result};
use crate::number::{decimal, decimal_string, parse_u64, parse_unsigned_upto};
use crate::text::{chars_of, concat, equals_str, starts_with, starts_with_str, string_of, trim, trim_chars};
use crate::weburl::{path_segments_of, url_after_append_pair, url_host_of, url_parse_outcome, WebUrl};

verus! {

/// The trimmed link with `https://` added when it has neither `http://` nor `https://`.
pub open spec fn thread_link(input: Seq<char>) -> Seq<char> {
    let value = trim(input);
    if starts_with(value, "http://"@) || starts_with(value, "https://"@) {
        value
    } else {
        "https://"@ + value
    }
}

/// The thread id a link names: the host is `tieba.baidu.com` or
/// `www.tieba.baidu.com` and the path is exactly `/p/<id>` with a positive decimal id.
pub open spec fn spec_thread_id(input: Seq<char>) -> Option<u64> {
    match url_parse_outcome(thread_link(input)) {
        Err(_) => None,
        Ok(u) => {
            if !(url_host_of(u) == Some("tieba.baidu.com"@) || url_host_of(u) == Some(
                "www.tieba.baidu.com"@,
            )) {
                None
            } else {
                match path_segments_of(u) {
                    None => None,
                    Some(segments) => {
                        if segments.len() != 2 || segments[0] != "p"@ {
                            None
                        } else {
                            match parse_unsigned_upto(segments[1], u64::MAX as nat) {
                                Some(id) => if id > 0 {
                                    Some(id as u64)
                                } else {
                                    None
                                },
                                None => None,
                            }
                        }
                    },
                }
            }
        },
    }
}

/// The thread id of a Tieba thread link, or `InvalidThreadUrl` with the trimmed link.
pub fn extract_thread_id(input: &str) -> (r: Result<u64>)
    ensures
        match r {
            Ok(id) => spec_thread_id(input@) == Some(id),
            Err(e) => spec_thread_id(input@) is None && (e matches AppError::InvalidThreadUrl(v)
                && v@ == trim(input@)),
        },
{
    let chars = chars_of(input);
    let value_chars = trim_chars(&chars);
    let value = string_of(&value_chars);
    let with_scheme = if starts_with_str(&value_chars, "http://") || starts_with_str(
        &value_chars,
        "https://",
    ) {
        value.clone()
    } else {
        concat("https://", value.as_str())
    };
    let url = match WebUrl::parse(with_scheme.as_str()) {
        Ok(u) => u,
        Err(_) => return Err(AppError::InvalidThreadUrl(value)),
    };
    let host_ok = match url.host_str() {
        Some(h) => {
            let hc = chars_of(h.as_str());
            equals_str(&hc, "tieba.baidu.com") || equals_str(&hc, "www.tieba.baidu.com")
        },
        None => false,
    };
    if !host_ok {
        return Err(AppError::InvalidThreadUrl(value));
    }
    let segments = match url.path_segments() {
        Some(s) => s,
        None => return Err(AppError::InvalidThreadUrl(value)),
    };
    if segments.len() != 2 {
        return Err(AppError::InvalidThreadUrl(value));
    }
    let first = chars_of(segments[0].as_str());
    if !equals_str(&first, "p") {
        return Err(AppError::InvalidThreadUrl(value));
    }
    let second = chars_of(segments[1].as_str());
    match parse_u64(&second) {
        Some(id) => if id > 0 {
            Ok(id)
        } else {
            Err(AppError::InvalidThreadUrl(value))
        },
        None => Err(AppError::InvalidThreadUrl(value)),
    }
}

/// The link of one page of a thread: `pn=<page>`, and `see_lz=1` for the
/// original poster's posts only.
pub open spec fn spec_page_url(thread_id: u64, page: usize, only_author: bool) -> Option<Seq<char>> {
    match url_parse_outcome("https://tieba.baidu.com/p/"@ + decimal(thread_id as nat)) {
        Ok(u) => {
            let with_page = url_after_append_pair(u, "pn"@, decimal(page as nat));
            Some(
                if only_author {
                    url_after_append_pair(with_page, "see_lz"@, "1"@)
                } else {
                    with_page
                },
            )
        },
        Err(_) => None,
    }
}

/// The link of one page of a thread; `None` only if the `url` crate refused the
/// thread address.
pub fn page_url(thread_id: u64, page: usize, only_author: bool) -> (r: Option<WebUrl>)
    ensures
        match r {
            Some(u) => spec_page_url(thread_id, page, only_author) == Some(u@),
            None => spec_page_url(thread_id, page, only_author) is None,
        },
{
    let id = decimal_string(thread_id);
    let base = concat("https://tieba.baidu.com/p/", id.as_str());
    let mut url = match WebUrl::parse(base.as_str()) {
        Ok(u) => u,
        Err(_) => return None,
    };
    let page_text = decimal_string(page as u64);
    url.append_pair("pn", page_text.as_str());
    if only_author {
        url.append_pair("see_lz", "1");
    }
    Some(url)
}

} // verus!
