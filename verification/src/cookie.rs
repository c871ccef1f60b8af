//! Cookie files: a raw `Cookie` header or a Netscape `cookies.txt` export,
//! reduced to the `baidu.com` cookies that have not expired.
use vstd::prelude::*;
use crate::error::{AppError, Result};
use crate::number::{parse_i64, parse_i64_spec};
use crate::sorted::{lemma_insert_sorted_members, header_exec, header_of, insert_sorted, insert_sorted_exec, pairs_view, strictly_sorted, lemma_insert_sorted_keeps_order};
use crate::text::{
    chars_of, chars_range, contains, contains_str, ends_with, ends_with_str, equals_str, line_ranges,
    lines, lower, lower_chars, split, split_ranges, starts_with, starts_with_str, string_of, trim,
    trim_chars,
};

verus! {

/// The position of the first character of `s` at or after `i` that is not `c`.
pub open spec fn skip_char_from(s: Seq<char>, c: char, i: int) -> int
    decreases s.len() - i,
{
    if 0 <= i < s.len() && s[i] == c {
        skip_char_from(s, c, i + 1)
    } else {
        i
    }
}

/// `str::trim_start_matches(c)`.
pub open spec fn trim_start_char(s: Seq<char>, c: char) -> Seq<char> {
    s.skip(skip_char_from(s, c, 0))
}

/// `s` without its leading `c` characters.
pub fn trim_start_char_exec(s: &[char], c: char) -> (out: Vec<char>)
    ensures
        out@ == trim_start_char(s@, c),
{
    let mut i: usize = 0;
    while i < s.len() && s[i] == c
        invariant
            i <= s@.len(),
            skip_char_from(s@, c, 0) == skip_char_from(s@, c, i as int),
        decreases s@.len() - i,
    {
        i = i + 1;
    }
    let out = chars_range(s, i, s.len());
    assert(out@ =~= s@.skip(i as int));
    out
}

/// A cookie domain counts as Baidu's when, without leading dots and in lower
/// case, it is `baidu.com` or ends with `.baidu.com`.
pub open spec fn spec_is_baidu_domain(domain: Seq<char>) -> bool {
    let d = lower(trim_start_char(domain, '.'));
    d == "baidu.com"@ || ends_with(d, ".baidu.com"@)
}

pub fn is_baidu_domain(domain: &str) -> (r: bool)
    ensures
        r == spec_is_baidu_domain(domain@),
{
    let chars = chars_of(domain);
    let stripped = trim_start_char_exec(&chars, '.');
    let d = lower_chars(&stripped);
    equals_str(&d, "baidu.com") || ends_with_str(&d, ".baidu.com")
}


/// A line that looks like a Netscape cookie record: not blank, not a comment,
/// and at least seven tab-separated fields.
pub open spec fn netscape_shaped(line: Seq<char>) -> bool {
    let l = trim(line);
    l.len() > 0 && !starts_with(l, "#"@) && split(l, '\t').len() >= 7
}

/// Whether any line of the file looks like a Netscape cookie record.
pub open spec fn is_netscape(content: Seq<char>) -> bool {
    exists|i: int| 0 <= i < lines(content).len() && netscape_shaped(#[trigger] lines(content)[i])
}

/// The `(name, value)` a Netscape record contributes at time `now`: a Baidu
/// domain, a path starting with `/`, not expired (expiry 0 or unreadable means
/// a session cookie), and a non-empty name and value.
pub open spec fn netscape_entry(line: Seq<char>, now: i64) -> Option<(Seq<char>, Seq<char>)> {
    let l = trim(line);
    if l.len() == 0 || starts_with(l, "#"@) {
        None
    } else {
        let f = split(l, '\t');
        if f.len() < 7 || !spec_is_baidu_domain(f[0]) || !starts_with(f[2], "/"@) {
            None
        } else {
            let expires: int = match parse_i64_spec(f[4]) {
                Some(e) => e,
                None => 0,
            };
            if expires != 0 && expires <= now {
                None
            } else {
                let name = trim(f[5]);
                let value = trim(f[6]);
                if name.len() > 0 && value.len() > 0 {
                    Some((name, value))
                } else {
                    None
                }
            }
        }
    }
}

/// The cookies of the first `n` lines, sorted by name, a later record of a name replacing an earlier one.
pub open spec fn netscape_cookies(ls: Seq<Seq<char>>, n: int, now: i64) -> Seq<(Seq<char>, Seq<char>)>
    decreases n,
{
    if n <= 0 || n > ls.len() {
        Seq::empty()
    } else {
        let acc = netscape_cookies(ls, n - 1, now);
        match netscape_entry(ls[n - 1], now) {
            Some((name, value)) => insert_sorted(acc, name, value, true),
            None => acc,
        }
    }
}

pub open spec fn raw_header_message() -> Seq<char> {
    "完整 Cookie 请求头必须是单行 name=value; name2=value2"@
}

pub open spec fn no_cookie_message() -> Seq<char> {
    "Netscape cookies.txt 中没有可用于 baidu.com 的未过期 Cookie"@
}

/// The `Cookie` header a cookie file gives at time `now`, or the message of its `InvalidCookie` error.
pub open spec fn spec_parse_cookie_file(content: Seq<char>, now: i64) -> std::result::Result<Seq<char>, Seq<char>> {
    if !is_netscape(content) {
        let raw = trim(content);
        if raw.len() == 0 || !contains(raw, "="@) || contains(raw, "\r"@) || contains(raw, "\n"@) {
            Err(raw_header_message())
        } else {
            Ok(raw)
        }
    } else {
        let ls = lines(content);
        let cookies = netscape_cookies(ls, ls.len() as int, now);
        if cookies.len() == 0 {
            Err(no_cookie_message())
        } else {
            Ok(header_of(cookies))
        }
    }
}

/// Whether a line (the characters `s[lo..hi]`) looks like a Netscape record.
fn netscape_shaped_exec(s: &[char], lo: usize, hi: usize) -> (r: bool)
    requires
        lo <= hi <= s@.len(),
    ensures
        r == netscape_shaped(s@.subrange(lo as int, hi as int)),
{
    let line = chars_range(s, lo, hi);
    let l = trim_chars(&line);
    if l.len() == 0 || starts_with_str(&l, "#") {
        return false;
    }
    let fields = split_ranges(&l, '\t');
    fields.len() >= 7
}

/// The fields of a trimmed line, each as characters.
fn field(l: &[char], ranges: &Vec<(usize, usize)>, k: usize) -> (out: Vec<char>)
    requires
        k < ranges@.len(),
        ranges@.len() == split(l@, '\t').len(),
        forall|m: int|
            0 <= m < ranges@.len() ==> (#[trigger] ranges@[m]).0 <= ranges@[m].1 <= l@.len()
                && l@.subrange(ranges@[m].0 as int, ranges@[m].1 as int) == split(l@, '\t')[m],
    ensures
        out@ == split(l@, '\t')[k as int],
{
    let (a, b) = ranges[k];
    chars_range(l, a, b)
}

/// The cookie one line contributes at time `now` (see `netscape_entry`).
fn netscape_entry_exec(line: &[char], now: i64) -> (r: Option<(Vec<char>, Vec<char>)>)
    ensures
        match r {
            Some((n, v)) => netscape_entry(line@, now) == Some((n@, v@)),
            None => netscape_entry(line@, now) is None,
        },
{
    let l = trim_chars(line);
    if l.len() == 0 || starts_with_str(&l, "#") {
        return None;
    }
    let ranges = split_ranges(&l, '\t');
    if ranges.len() < 7 {
        return None;
    }
    let domain = field(&l, &ranges, 0);
    let domain_text = string_of(&domain);
    if !is_baidu_domain(domain_text.as_str()) {
        return None;
    }
    let path = field(&l, &ranges, 2);
    if !starts_with_str(&path, "/") {
        return None;
    }
    let expires_field = field(&l, &ranges, 4);
    let expires: i64 = match parse_i64(&expires_field) {
        Some(e) => e,
        None => 0,
    };
    if expires != 0 && expires <= now {
        return None;
    }
    let name_field = field(&l, &ranges, 5);
    let value_field = field(&l, &ranges, 6);
    let name = trim_chars(&name_field);
    let value = trim_chars(&value_field);
    if name.len() > 0 && value.len() > 0 {
        Some((name, value))
    } else {
        None
    }
}

/// The `Cookie` header a cookie file gives at time `now`: a one-line raw
/// header is taken as it is; a Netscape `cookies.txt` gives its unexpired
/// Baidu cookies, sorted by name.  `now` is the time in seconds since the
/// Unix epoch that decides which cookies have expired.
pub fn parse_cookie_file(content: &str, now: i64) -> (r: Result<String>)
    ensures
        match r {
            Ok(h) => spec_parse_cookie_file(content@, now) == Ok::<Seq<char>, Seq<char>>(h@),
            Err(e) => e matches AppError::InvalidCookie(m) && spec_parse_cookie_file(content@, now)
                == Err::<Seq<char>, Seq<char>>(m@),
        },
{
    let chars = chars_of(content);
    let ranges = line_ranges(&chars);
    let ghost ls = lines(chars@);
    let mut netscape = false;
    let mut i: usize = 0;
    while i < ranges.len()
        invariant
            i <= ranges@.len(),
            ranges@.len() == ls.len(),
            ls == lines(content@),
            chars@ == content@,
            forall|k: int|
                0 <= k < ranges@.len() ==> (#[trigger] ranges@[k]).0 <= ranges@[k].1 <= chars@.len()
                    && chars@.subrange(ranges@[k].0 as int, ranges@[k].1 as int) == ls[k],
            netscape == exists|k: int| 0 <= k < i && netscape_shaped(#[trigger] ls[k]),
        decreases ranges@.len() - i,
    {
        let (a, b) = ranges[i];
        if netscape_shaped_exec(&chars, a, b) {
            netscape = true;
        }
        i = i + 1;
    }
    if !netscape {
        let raw = trim_chars(&chars);
        if raw.len() == 0 || !contains_str(&raw, "=") || contains_str(&raw, "\r") || contains_str(
            &raw,
            "\n",
        ) {
            return Err(AppError::InvalidCookie("完整 Cookie 请求头必须是单行 name=value; name2=value2".to_owned()));
        }
        return Ok(string_of(&raw));
    }
    let mut values: Vec<(Vec<char>, Vec<char>)> = Vec::new();
    let mut k: usize = 0;
    while k < ranges.len()
        invariant
            k <= ranges@.len(),
            ranges@.len() == ls.len(),
            forall|m: int|
                0 <= m < ranges@.len() ==> (#[trigger] ranges@[m]).0 <= ranges@[m].1 <= chars@.len()
                    && chars@.subrange(ranges@[m].0 as int, ranges@[m].1 as int) == ls[m],
            pairs_view(values@) == netscape_cookies(ls, k as int, now),
        decreases ranges@.len() - k,
    {
        let (a, b) = ranges[k];
        let line = chars_range(&chars, a, b);
        match netscape_entry_exec(&line, now) {
            Some((name, value)) => {
                insert_sorted_exec(&mut values, name, value, true);
            },
            None => {},
        }
        k = k + 1;
    }
    assert(pairs_view(values@).len() == values@.len());
    if values.len() == 0 {
        return Err(AppError::InvalidCookie("Netscape cookies.txt 中没有可用于 baidu.com 的未过期 Cookie".to_owned()));
    }
    let header = header_exec(&values);
    Ok(string_of(&header))
}

/// The `Cookie` header of the cookie file at `path`, given what reading the
/// file gave: its text, or the message of the read failure, which becomes a
/// `CookieRead` failure naming the path.  `now` decides expiry, as in
/// `parse_cookie_file`.
pub fn load_cookie(path: &str, read: std::result::Result<String, String>, now: i64) -> (r: Result<String>)
    ensures
        match read {
            Err(m) => r matches Err(e) && e@ == crate::error::ErrorView::CookieRead { path: path@, source: m@ },
            Ok(content) => match r {
                Ok(h) => spec_parse_cookie_file(content@, now) == Ok::<Seq<char>, Seq<char>>(h@),
                Err(e) => e matches AppError::InvalidCookie(m) && spec_parse_cookie_file(content@, now) == Err::<
                    Seq<char>,
                    Seq<char>,
                >(m@),
            },
        },
{
    match read {
        Err(m) => Err(AppError::CookieRead { path: path.to_owned(), source: m }),
        Ok(content) => parse_cookie_file(content.as_str(), now),
    }
}

/// The cookies a file yields are strictly sorted by name, so no name appears twice.
pub proof fn lemma_netscape_cookies_sorted(ls: Seq<Seq<char>>, n: int, now: i64)
    ensures
        strictly_sorted(netscape_cookies(ls, n, now)),
    decreases n,
{
    if n > 0 && n <= ls.len() {
        lemma_netscape_cookies_sorted(ls, n - 1, now);
        match netscape_entry(ls[n - 1], now) {
            Some((name, value)) => {
                lemma_insert_sorted_keeps_order(netscape_cookies(ls, n - 1, now), name, value, true);
            },
            None => {},
        }
    }
}

/// Every cookie a Netscape file yields comes from one of its lines that
/// names a Baidu domain and a path and has not expired at `now`.
pub proof fn law_netscape_cookies_come_from_baidu_lines(ls: Seq<Seq<char>>, n: int, now: i64)
    ensures
        forall|k: int|
            0 <= k < netscape_cookies(ls, n, now).len() ==> exists|i: int|
                0 <= i < n && i < ls.len() && netscape_entry(ls[i], now) == Some(
                    #[trigger] netscape_cookies(ls, n, now)[k],
                ),
    decreases n,
{
    if n > 0 && n <= ls.len() {
        law_netscape_cookies_come_from_baidu_lines(ls, n - 1, now);
        let acc = netscape_cookies(ls, n - 1, now);
        match netscape_entry(ls[n - 1], now) {
            Some((name, value)) => {
                lemma_insert_sorted_members(acc, name, value, true);
                let r = netscape_cookies(ls, n, now);
                assert forall|k: int| 0 <= k < r.len() implies exists|i: int|
                    0 <= i < n && i < ls.len() && netscape_entry(ls[i], now) == Some(#[trigger] r[k]) by {
                    if r[k] == (name, value) {
                        assert(netscape_entry(ls[n - 1], now) == Some(r[k]));
                    } else {
                        assert(acc.contains(r[k]));
                        let j = choose|j: int| 0 <= j < acc.len() && acc[j] == r[k];
                        assert(exists|i: int| 0 <= i < n - 1 && i < ls.len() && netscape_entry(ls[i], now) == Some(#[trigger] acc[j]));
                    }
                }
            },
            None => {},
        }
    }
}


/// A file that is no Netscape cookies.txt is one raw header, read trimmed:
/// files that differ only in surrounding whitespace give the same answer.
pub proof fn law_raw_header_ignores_surrounding_space(c1: Seq<char>, c2: Seq<char>, now: i64)
    requires
        !is_netscape(c1),
        !is_netscape(c2),
        trim(c1) == trim(c2),
    ensures
        spec_parse_cookie_file(c1, now) == spec_parse_cookie_file(c2, now),
{
}

/// A raw header whose trimmed text is one non-empty line with a `=` is taken
/// as it is, trimmed, whatever whitespace or final line break surrounds it.
pub proof fn law_single_line_header_is_taken(c: Seq<char>, now: i64)
    requires
        !is_netscape(c),
        trim(c).len() > 0,
        contains(trim(c), "="@),
        !contains(trim(c), "\n"@),
        !contains(trim(c), "\r"@),
    ensures
        spec_parse_cookie_file(c, now) == Ok::<Seq<char>, Seq<char>>(trim(c)),
{
}

} // verus!
