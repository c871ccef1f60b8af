//! Image addresses: which file extension a media type or an address names.
use vstd::prelude::*;
use crate::text::{
    char_pos_from, char_pos_from_exec, chars_of, chars_range, equals_str, extend_chars, find,
    find_exec, lemma_char_pos_from, lemma_find_from, lower, lower_chars, occurs_at, replace,
    replace_exec, rsplit_once, rsplit_once_exec, split, starts_with, starts_with_str, string_of,
    trim, trim_chars,
};
use crate::weburl::{
    path_segments_of, url_after_set_fragment, url_after_set_path, url_after_set_scheme,
    url_parse_outcome, url_path_of, url_scheme_of, WebUrl,
};

verus! {

/// The extension used for a recognised image media type (already lower-cased).
pub open spec fn extension_for_media(m: Seq<char>) -> Option<Seq<char>> {
    if m == "image/jpeg"@ || m == "image/jpg"@ {
        Some("jpg"@)
    } else if m == "image/png"@ {
        Some("png"@)
    } else if m == "image/webp"@ {
        Some("webp"@)
    } else if m == "image/gif"@ {
        Some("gif"@)
    } else if m == "image/bmp"@ {
        Some("bmp"@)
    } else if m == "image/avif"@ {
        Some("avif"@)
    } else {
        None
    }
}

/// The media type of a `Content-Type` value: the part before the first `;`,
/// trimmed and lower-cased.
pub open spec fn media_type(value: Seq<char>) -> Seq<char> {
    lower(trim(split(value, ';')[0]))
}

/// The extension a `Content-Type` value names, if it is a recognised image type.
pub open spec fn spec_extension_from_content_type(value: Option<Seq<char>>) -> Option<Seq<char>> {
    match value {
        Some(v) => extension_for_media(media_type(v)),
        None => None,
    }
}

/// The extension used for a recognised image file suffix (already lower-cased).
pub open spec fn extension_for_suffix(e: Seq<char>) -> Option<Seq<char>> {
    if e == "jpg"@ || e == "jpeg"@ {
        Some("jpg"@)
    } else if e == "png"@ {
        Some("png"@)
    } else if e == "webp"@ {
        Some("webp"@)
    } else if e == "gif"@ {
        Some("gif"@)
    } else if e == "bmp"@ {
        Some("bmp"@)
    } else if e == "avif"@ {
        Some("avif"@)
    } else {
        None
    }
}

/// The first piece of `split(s, c)` is everything before the first `c`.
pub proof fn lemma_split_first(s: Seq<char>, c: char)
    ensures
        split(s, c).len() >= 1,
        char_pos_from(s, c, 0) < 0 ==> split(s, c)[0] == s,
        char_pos_from(s, c, 0) >= 0 ==> split(s, c)[0] == s.take(char_pos_from(s, c, 0)),
{
    lemma_char_pos_from(s, c, 0);
    if char_pos_from(s, c, 0) < 0 {
        assert(s.subrange(0, s.len() as int) =~= s);
    }
}

/// The characters of `s` up to its first `c`.
pub fn first_piece(s: &[char], c: char) -> (out: Vec<char>)
    ensures
        out@ == split(s@, c)[0],
{
    proof {
        lemma_split_first(s@, c);
    }
    match char_pos_from_exec(s, c, 0) {
        Some(i) => chars_range(s, 0, i),
        None => chars_range(s, 0, s.len()),
    }
}

fn extension_for_media_exec(m: &[char]) -> (r: Option<&'static str>)
    ensures
        match r {
            Some(e) => extension_for_media(m@) == Some(e@),
            None => extension_for_media(m@) is None,
        },
{
    if equals_str(m, "image/jpeg") || equals_str(m, "image/jpg") {
        Some("jpg")
    } else if equals_str(m, "image/png") {
        Some("png")
    } else if equals_str(m, "image/webp") {
        Some("webp")
    } else if equals_str(m, "image/gif") {
        Some("gif")
    } else if equals_str(m, "image/bmp") {
        Some("bmp")
    } else if equals_str(m, "image/avif") {
        Some("avif")
    } else {
        None
    }
}

/// The extension of an image `Content-Type`, or `None` for any other type.
pub fn extension_from_content_type(value: Option<&str>) -> (r: Option<&'static str>)
    ensures
        match r {
            Some(e) => value is Some && spec_extension_from_content_type(Some(value->0@)) == Some(e@),
            None => value is None || spec_extension_from_content_type(Some(value->0@)) is None,
        },
{
    match value {
        None => None,
        Some(v) => {
            let chars = chars_of(v);
            let head = first_piece(&chars, ';');
            let trimmed = trim_chars(&head);
            let media = lower_chars(&trimmed);
            extension_for_media_exec(&media)
        },
    }
}

/// The extension for a file suffix, or `None` if it is not a recognised image suffix.
pub fn extension_for_suffix_exec(e: &[char]) -> (r: Option<&'static str>)
    ensures
        match r {
            Some(x) => extension_for_suffix(e@) == Some(x@),
            None => extension_for_suffix(e@) is None,
        },
{
    if equals_str(e, "jpg") || equals_str(e, "jpeg") {
        Some("jpg")
    } else if equals_str(e, "png") {
        Some("png")
    } else if equals_str(e, "webp") {
        Some("webp")
    } else if equals_str(e, "gif") {
        Some("gif")
    } else if equals_str(e, "bmp") {
        Some("bmp")
    } else if equals_str(e, "avif") {
        Some("avif")
    } else {
        None
    }
}


/// The address to parse for an image source attribute: `w%3D580` decoded, a
/// protocol-relative address given `https:`, and anything but an `http://` or
/// `https://` address refused.
pub open spec fn absolute_input(value: Seq<char>) -> Option<Seq<char>> {
    let decoded = replace(value, "w%3D580"@, "w=580"@);
    if starts_with(decoded, "//"@) {
        Some("https:"@ + decoded)
    } else if starts_with(decoded, "http://"@) || starts_with(decoded, "https://"@) {
        Some(decoded)
    } else {
        None
    }
}

/// The URL an image source attribute denotes.
pub open spec fn spec_absolute_url(value: Seq<char>) -> Option<Seq<char>> {
    match absolute_input(value) {
        Some(full) => match url_parse_outcome(full) {
            Ok(u) => Some(u),
            Err(_) => None,
        },
        None => None,
    }
}

/// The original-size image for a URL: `https`, the thumbnail directory
/// `/forum/w=580/` replaced by `/forum/pic/item/`, and no fragment.
pub open spec fn original_of(u0: Seq<char>) -> Seq<char> {
    let u1 = if url_scheme_of(u0) == "http"@ {
        url_after_set_scheme(u0, "https"@)
    } else {
        u0
    };
    let path = url_path_of(u1);
    let pos = find(path, "/forum/w=580/"@);
    let u2 = if pos >= 0 {
        url_after_set_path(u1, path.take(pos) + "/forum/pic/item/"@ + path.skip(pos + 13))
    } else {
        u1
    };
    url_after_set_fragment(u2, None)
}

/// The original-size image an image source attribute denotes.
pub open spec fn spec_original_url(value: Seq<char>) -> Option<Seq<char>> {
    match spec_absolute_url(value) {
        Some(u) => Some(original_of(u)),
        None => None,
    }
}

/// The key under which an image is recognised again: the URL without fragment.
pub open spec fn spec_normalized_key(url: Seq<char>) -> Seq<char> {
    url_after_set_fragment(url, None)
}

/// The image extension named by the last path segment of a URL.
pub open spec fn spec_extension_from_url(url: Seq<char>) -> Option<Seq<char>> {
    match path_segments_of(url) {
        Some(segments) => match rsplit_once(segments.last(), '.') {
            Some((_, ext)) => extension_for_suffix(lower(ext)),
            None => None,
        },
        None => None,
    }
}

/// The URL an image source attribute denotes.
pub fn absolute_url(value: &str) -> (r: Option<WebUrl>)
    ensures
        match r {
            Some(u) => spec_absolute_url(value@) == Some(u@),
            None => spec_absolute_url(value@) is None,
        },
{
    let chars = chars_of(value);
    let from = chars_of("w%3D580");
    let to = chars_of("w=580");
    proof {
        reveal_strlit("w%3D580");
    }
    let decoded = replace_exec(&chars, &from, &to);
    let full = if starts_with_str(&decoded, "//") {
        let mut v = chars_of("https:");
        extend_chars(&mut v, &decoded);
        v
    } else if starts_with_str(&decoded, "http://") || starts_with_str(&decoded, "https://") {
        decoded
    } else {
        return None;
    };
    let text = string_of(&full);
    match WebUrl::parse(text.as_str()) {
        Ok(u) => Some(u),
        Err(_) => None,
    }
}

/// The original-size image an image source attribute denotes.
pub fn original_url(value: &str) -> (r: Option<WebUrl>)
    ensures
        match r {
            Some(u) => spec_original_url(value@) == Some(u@),
            None => spec_original_url(value@) is None,
        },
{
    let mut url = match absolute_url(value) {
        Some(u) => u,
        None => return None,
    };
    let scheme = url.scheme();
    let scheme_chars = chars_of(scheme.as_str());
    if equals_str(&scheme_chars, "http") {
        url.set_scheme("https");
    }
    let path = url.path();
    let path_chars = chars_of(path.as_str());
    let marker = chars_of("/forum/w=580/");
    proof {
        reveal_strlit("/forum/w=580/");
        lemma_find_from(path_chars@, marker@, 0);
    }
    match find_exec(&path_chars, &marker) {
        Some(pos) => {
            let mut new_path = chars_range(&path_chars, 0, pos);
            let middle = chars_of("/forum/pic/item/");
            extend_chars(&mut new_path, &middle);
            let n = path_chars.len();
            assert(pos + 13 <= n);
            let tail = chars_range(&path_chars, pos + 13, n);
            extend_chars(&mut new_path, &tail);
            assert(new_path@ =~= path_chars@.take(pos as int) + "/forum/pic/item/"@ + path_chars@.skip(pos + 13));
            let new_text = string_of(&new_path);
            url.set_path(new_text.as_str());
        },
        None => {},
    }
    url.set_fragment(None);
    Some(url)
}

/// The URL without its fragment, as text.
pub fn normalized_key(url: &WebUrl) -> (r: String)
    ensures
        r@ == spec_normalized_key(url@),
{
    let mut value = url.duplicate();
    value.set_fragment(None);
    value.as_str().to_owned()
}

/// The image extension named by the last path segment of a URL.
pub fn extension_from_url(url: &WebUrl) -> (r: Option<&'static str>)
    ensures
        match r {
            Some(e) => spec_extension_from_url(url@) == Some(e@),
            None => spec_extension_from_url(url@) is None,
        },
{
    let segments = match url.path_segments() {
        Some(s) => s,
        None => return None,
    };
    proof {
        crate::text::lemma_split_len(url_path_of(url@).skip(1), '/');
    }
    let last = &segments[segments.len() - 1];
    let last_chars = chars_of(last.as_str());
    match rsplit_once_exec(&last_chars, '.') {
        Some((_, ext)) => {
            let lowered = lower_chars(&ext);
            extension_for_suffix_exec(&lowered)
        },
        None => None,
    }
}


/// Writing `w=580` as `w%3D580` does not change the image: sources that read
/// the same once `w%3D580` is decoded have the same absolute address and the
/// same original-size address.
pub proof fn law_percent_encoded_thumbnail(v1: Seq<char>, v2: Seq<char>)
    requires
        replace(v1, "w%3D580"@, "w=580"@) == replace(v2, "w%3D580"@, "w=580"@),
    ensures
        spec_absolute_url(v1) == spec_absolute_url(v2),
        spec_original_url(v1) == spec_original_url(v2),
{
}

} // verus!
