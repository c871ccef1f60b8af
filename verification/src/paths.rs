//! File paths as `std::path` composes them on Unix: joining a relative part,
//! and the extension of a single file name.
use vstd::prelude::*;
use crate::text::{chars_of, ends_with, equals_str, extend_chars, last_char_pos, lemma_last_char_pos, string_of, chars_range};

verus! {

/// `Path::join`: an absolute `part` replaces `base`; otherwise `part` follows
/// `base`, with a `/` between them unless `base` is empty or already ends in `/`.
pub open spec fn join_path(base: Seq<char>, part: Seq<char>) -> Seq<char> {
    if part.len() > 0 && part[0] == '/' {
        part
    } else if base.len() == 0 || base.last() == '/' {
        base + part
    } else {
        base + seq!['/'] + part
    }
}

pub fn join_path_exec(base: &str, part: &str) -> (r: String)
    ensures
        r@ == join_path(base@, part@),
{
    let b = chars_of(base);
    let p = chars_of(part);
    if p.len() > 0 && p[0] == '/' {
        return string_of(&p);
    }
    let mut out = b;
    if out.len() > 0 && out[out.len() - 1] != '/' {
        out.push('/');
    }
    extend_chars(&mut out, &p);
    string_of(&out)
}

/// A name that is no file name of its own (`Path::file_name` is `None`).
pub open spec fn is_special_name(name: Seq<char>) -> bool {
    name.len() == 0 || name == "."@ || name == ".."@
}

/// `Path::extension` of a single file name: what follows its last `.`, unless
/// that `.` starts the name or there is none.
pub open spec fn file_extension(name: Seq<char>) -> Option<Seq<char>> {
    let p = last_char_pos(name, '.', name.len() as int);
    if is_special_name(name) || p <= 0 {
        None
    } else {
        Some(name.skip(p + 1))
    }
}

/// `Path::with_extension` of a single file name.
pub open spec fn with_extension(name: Seq<char>, ext: Seq<char>) -> Seq<char> {
    if is_special_name(name) {
        name
    } else {
        let stem = match file_extension(name) {
            Some(e) => name.take(name.len() - e.len() - 1),
            None => name,
        };
        if ext.len() == 0 {
            stem
        } else {
            stem + seq!['.'] + ext
        }
    }
}

fn is_special_name_exec(name: &[char]) -> (r: bool)
    ensures
        r == is_special_name(name@),
{
    name.len() == 0 || equals_str(name, ".") || equals_str(name, "..")
}

/// The position of the last `c` in `s`, if any.
pub fn last_char_pos_exec(s: &[char], c: char) -> (r: Option<usize>)
    ensures
        match r {
            Some(i) => last_char_pos(s@, c, s@.len() as int) == i as int && i < s@.len(),
            None => last_char_pos(s@, c, s@.len() as int) == -1,
        },
{
    let mut end: usize = s.len();
    while end > 0 && s[end - 1] != c
        invariant
            end <= s@.len(),
            last_char_pos(s@, c, s@.len() as int) == last_char_pos(s@, c, end as int),
        decreases end,
    {
        end = end - 1;
    }
    if end == 0 {
        None
    } else {
        Some(end - 1)
    }
}

/// `Path::extension` of a single file name.
pub fn file_extension_exec(name: &[char]) -> (r: Option<Vec<char>>)
    ensures
        match r {
            Some(e) => file_extension(name@) == Some(e@),
            None => file_extension(name@) is None,
        },
{
    if is_special_name_exec(name) {
        return None;
    }
    match last_char_pos_exec(name, '.') {
        Some(p) => if p == 0 {
            None
        } else {
            let n = name.len();
            assert(p < n);
            let e = chars_range(name, p + 1, n);
            assert(e@ =~= name@.skip(p + 1));
            Some(e)
        },
        None => None,
    }
}

/// `Path::with_extension` of a single file name.
pub fn with_extension_exec(name: &[char], ext: &[char]) -> (r: Vec<char>)
    ensures
        r@ == with_extension(name@, ext@),
{
    if is_special_name_exec(name) {
        return chars_range(name, 0, name.len());
    }
    let stem_len: usize = match file_extension_exec(name) {
        Some(e) => {
            proof {
                lemma_last_char_pos(name@, '.', name@.len() as int);
            }
            name.len() - e.len() - 1
        },
        None => name.len(),
    };
    let mut out = chars_range(name, 0, stem_len);
    assert(name@.take(stem_len as int) =~= name@.subrange(0, stem_len as int));
    if ext.len() > 0 {
        out.push('.');
        extend_chars(&mut out, ext);
    }
    out
}

} // verus!
