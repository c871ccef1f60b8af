//! Character-sequence primitives with the meaning std gives them on `str`:
//! trimming, prefix and substring tests, splitting, line breaking, decimal
//! numbers.  Strings are handled as sequences of `char`.
use vstd::prelude::*;

verus! {

// ---------------------------------------------------------------------------
// Conversions between `str`/`String` and character vectors
// ---------------------------------------------------------------------------

/// Appends one character to a `String` (std `String::push`).
#[verifier::external_body]
fn push_char(s: &mut String, c: char)
    ensures
        final(s)@ == old(s)@.push(c),
{
    s.push(c);
}

/// The characters of `s`, in order.
pub fn chars_of(s: &str) -> (out: Vec<char>)
    ensures
        out@ == s@,
{
    let mut out: Vec<char> = Vec::new();
    for c in it: s.chars()
        invariant
            out@ == it.seq().take(it.index() as int),
            it.seq() == s@,
    {
        out.push(c);
    }
    out
}

/// A `String` holding exactly the given characters.
pub fn string_of(chars: &[char]) -> (out: String)
    ensures
        out@ == chars@,
{
    let mut out = String::new();
    let mut i: usize = 0;
    while i < chars.len()
        invariant
            i <= chars@.len(),
            out@ == chars@.take(i as int),
        decreases chars@.len() - i,
    {
        push_char(&mut out, chars[i]);
        i = i + 1;
        assert(out@ =~= chars@.take(i as int));
    }
    assert(chars@.take(i as int) =~= chars@);
    out
}

/// The characters `s[lo..hi]` as a `String`.
pub fn string_of_range(s: &[char], lo: usize, hi: usize) -> (out: String)
    requires
        lo <= hi <= s@.len(),
    ensures
        out@ == s@.subrange(lo as int, hi as int),
{
    let mut out = String::new();
    let mut i: usize = lo;
    while i < hi
        invariant
            lo <= i <= hi <= s@.len(),
            out@ == s@.subrange(lo as int, i as int),
        decreases hi - i,
    {
        push_char(&mut out, s[i]);
        i = i + 1;
        assert(out@ =~= s@.subrange(lo as int, i as int));
    }
    out
}

/// The characters `s[lo..hi]` as a vector.
pub fn chars_range(s: &[char], lo: usize, hi: usize) -> (out: Vec<char>)
    requires
        lo <= hi <= s@.len(),
    ensures
        out@ == s@.subrange(lo as int, hi as int),
{
    let mut out: Vec<char> = Vec::new();
    let mut i: usize = lo;
    while i < hi
        invariant
            lo <= i <= hi <= s@.len(),
            out@ == s@.subrange(lo as int, i as int),
        decreases hi - i,
    {
        out.push(s[i]);
        i = i + 1;
        assert(out@ =~= s@.subrange(lo as int, i as int));
    }
    out
}

/// Appends the characters of `tail` to `out`.
pub fn extend_chars(out: &mut Vec<char>, tail: &[char])
    ensures
        final(out)@ == old(out)@ + tail@,
{
    let mut i: usize = 0;
    while i < tail.len()
        invariant
            i <= tail@.len(),
            out@ == old(out)@ + tail@.take(i as int),
        decreases tail@.len() - i,
    {
        out.push(tail[i]);
        i = i + 1;
        assert(out@ =~= old(out)@ + tail@.take(i as int));
    }
    assert(tail@.take(i as int) =~= tail@);
}

// ---------------------------------------------------------------------------
// Whitespace and trimming (`char::is_whitespace`, `str::trim`)
// ---------------------------------------------------------------------------

/// Unicode `White_Space`, the set `char::is_whitespace` tests.
pub open spec fn is_whitespace(c: char) -> bool {
    ||| c == '\t' || c == '\n' || c == '\x0B' || c == '\x0C' || c == '\r' || c == ' '
    ||| c == '\u{85}' || c == '\u{A0}' || c == '\u{1680}'
    ||| ('\u{2000}' <= c && c <= '\u{200A}')
    ||| c == '\u{2028}' || c == '\u{2029}' || c == '\u{202F}' || c == '\u{205F}' || c == '\u{3000}'
}

pub fn is_whitespace_char(c: char) -> (r: bool)
    ensures
        r == is_whitespace(c),
{
    c == '\t' || c == '\n' || c == '\x0B' || c == '\x0C' || c == '\r' || c == ' ' || c == '\u{85}'
        || c == '\u{A0}' || c == '\u{1680}' || ('\u{2000}' <= c && c <= '\u{200A}') || c
        == '\u{2028}' || c == '\u{2029}' || c == '\u{202F}' || c == '\u{205F}' || c == '\u{3000}'
}

/// The first index at or after `i` that does not hold whitespace.
pub open spec fn skip_ws_from(s: Seq<char>, i: int) -> int
    decreases s.len() - i,
{
    if 0 <= i < s.len() && is_whitespace(s[i]) {
        skip_ws_from(s, i + 1)
    } else {
        i
    }
}

/// The end of `s[lo..hi]` once trailing whitespace is removed.
pub open spec fn back_ws_from(s: Seq<char>, lo: int, hi: int) -> int
    decreases hi - lo,
{
    if lo < hi && 0 < hi <= s.len() && is_whitespace(s[hi - 1]) {
        back_ws_from(s, lo, hi - 1)
    } else {
        hi
    }
}

pub open spec fn trim_start_index(s: Seq<char>) -> int {
    skip_ws_from(s, 0)
}

pub open spec fn trim_end_index(s: Seq<char>) -> int {
    back_ws_from(s, trim_start_index(s), s.len() as int)
}

/// `str::trim`: `s` without leading and trailing whitespace.
pub open spec fn trim(s: Seq<char>) -> Seq<char> {
    s.subrange(trim_start_index(s), trim_end_index(s))
}

pub proof fn lemma_skip_ws_bounds(s: Seq<char>, i: int)
    requires
        0 <= i <= s.len(),
    ensures
        i <= skip_ws_from(s, i) <= s.len(),
        forall|j: int| i <= j < skip_ws_from(s, i) ==> is_whitespace(#[trigger] s[j]),
        skip_ws_from(s, i) < s.len() ==> !is_whitespace(s[skip_ws_from(s, i)]),
    decreases s.len() - i,
{
    if i < s.len() && is_whitespace(s[i]) {
        lemma_skip_ws_bounds(s, i + 1);
    }
}

pub proof fn lemma_back_ws_bounds(s: Seq<char>, lo: int, hi: int)
    requires
        0 <= lo <= hi <= s.len(),
    ensures
        lo <= back_ws_from(s, lo, hi) <= hi,
        forall|j: int| back_ws_from(s, lo, hi) <= j < hi ==> is_whitespace(#[trigger] s[j]),
        back_ws_from(s, lo, hi) > lo ==> !is_whitespace(s[back_ws_from(s, lo, hi) - 1]),
    decreases hi - lo,
{
    if lo < hi && 0 < hi && is_whitespace(s[hi - 1]) {
        lemma_back_ws_bounds(s, lo, hi - 1);
    }
}

/// The bounds `(start, end)` of `trim(s)` within `s`.
pub fn trim_range(s: &[char]) -> (r: (usize, usize))
    ensures
        r.0 == trim_start_index(s@),
        r.1 == trim_end_index(s@),
        r.0 <= r.1 <= s@.len(),
        trim(s@) == s@.subrange(r.0 as int, r.1 as int),
{
    let mut i: usize = 0;
    while i < s.len() && is_whitespace_char(s[i])
        invariant
            i <= s@.len(),
            skip_ws_from(s@, 0) == skip_ws_from(s@, i as int),
        decreases s@.len() - i,
    {
        i = i + 1;
    }
    let mut j: usize = s.len();
    while j > i && is_whitespace_char(s[j - 1])
        invariant
            i <= j <= s@.len(),
            back_ws_from(s@, i as int, s@.len() as int) == back_ws_from(s@, i as int, j as int),
        decreases j - i,
    {
        j = j - 1;
    }
    (i, j)
}

/// `str::trim` on a character sequence.
pub fn trim_chars(s: &[char]) -> (out: Vec<char>)
    ensures
        out@ == trim(s@),
{
    let (a, b) = trim_range(s);
    chars_range(s, a, b)
}

// ---------------------------------------------------------------------------
// Prefixes, suffixes, substrings
// ---------------------------------------------------------------------------

/// `p` occurs in `s` at position `i`.
pub open spec fn occurs_at(s: Seq<char>, p: Seq<char>, i: int) -> bool {
    0 <= i && i + p.len() <= s.len() && s.subrange(i, i + p.len() as int) == p
}

/// `str::starts_with`.
pub open spec fn starts_with(s: Seq<char>, p: Seq<char>) -> bool {
    occurs_at(s, p, 0)
}

/// `str::ends_with`.
pub open spec fn ends_with(s: Seq<char>, p: Seq<char>) -> bool {
    p.len() <= s.len() && occurs_at(s, p, s.len() - p.len())
}

/// The first position at or after `i` where `p` occurs in `s`, or -1.
pub open spec fn find_from(s: Seq<char>, p: Seq<char>, i: int) -> int
    decreases s.len() + 1 - i,
{
    if i < 0 || i + p.len() > s.len() {
        -1
    } else if occurs_at(s, p, i) {
        i
    } else {
        find_from(s, p, i + 1)
    }
}

/// `str::find`, in characters: the first position of `p` in `s`, or -1.
pub open spec fn find(s: Seq<char>, p: Seq<char>) -> int {
    find_from(s, p, 0)
}

/// `str::contains`.
pub open spec fn contains(s: Seq<char>, p: Seq<char>) -> bool {
    find(s, p) >= 0
}

pub proof fn lemma_find_from(s: Seq<char>, p: Seq<char>, i: int)
    requires
        0 <= i,
    ensures
        find_from(s, p, i) == -1 || (i <= find_from(s, p, i) && occurs_at(s, p, find_from(s, p, i))),
        forall|j: int| i <= j && (find_from(s, p, i) == -1 || j < find_from(s, p, i))
            ==> !occurs_at(s, p, j),
    decreases s.len() + 1 - i,
{
    if i + p.len() > s.len() {
    } else if occurs_at(s, p, i) {
    } else {
        lemma_find_from(s, p, i + 1);
        assert forall|j: int| i <= j && (find_from(s, p, i) == -1 || j < find_from(s, p, i))
            implies !occurs_at(s, p, j) by {
            if j > i {
            }
        }
    }
}

pub fn occurs_at_exec(s: &[char], p: &[char], i: usize) -> (r: bool)
    ensures
        r == occurs_at(s@, p@, i as int),
{
    if p.len() > s.len() || i > s.len() - p.len() {
        return false;
    }
    let mut k: usize = 0;
    while k < p.len()
        invariant
            k <= p@.len(),
            i + p@.len() <= s@.len(),
            forall|m: int| 0 <= m < k ==> s@[i + m] == p@[m],
        decreases p@.len() - k,
    {
        let ghost slen = s.len();
        assert(i + k < slen);
        if s[i + k] != p[k] {
            assert(s@.subrange(i as int, i + p@.len())[k as int] != p@[k as int]);
            return false;
        }
        k = k + 1;
    }
    assert(s@.subrange(i as int, i + p@.len()) =~= p@);
    true
}

/// `str::starts_with` on character sequences.
pub fn starts_with_exec(s: &[char], p: &[char]) -> (r: bool)
    ensures
        r == starts_with(s@, p@),
{
    occurs_at_exec(s, p, 0)
}

/// `str::ends_with` on character sequences.
pub fn ends_with_exec(s: &[char], p: &[char]) -> (r: bool)
    ensures
        r == ends_with(s@, p@),
{
    if p.len() > s.len() {
        false
    } else {
        occurs_at_exec(s, p, s.len() - p.len())
    }
}

/// The first position of `p` in `s` at or after `from`, or `None`.
pub fn find_from_exec(s: &[char], p: &[char], from: usize) -> (r: Option<usize>)
    ensures
        match r {
            Some(i) => find_from(s@, p@, from as int) == i as int,
            None => find_from(s@, p@, from as int) == -1,
        },
{
    if p.len() == 0 {
        if from <= s.len() {
            assert(s@.subrange(from as int, from as int) =~= p@);
            return Some(from);
        }
        return None;
    }
    let mut i: usize = from;
    while i <= s.len() && p.len() <= s.len() - i
        invariant
            from <= i,
            p@.len() > 0,
            find_from(s@, p@, from as int) == find_from(s@, p@, i as int),
        decreases s@.len() - i,
    {
        if occurs_at_exec(s, p, i) {
            return Some(i);
        }
        i = i + 1;
    }
    None
}

/// `str::find` on character sequences.
pub fn find_exec(s: &[char], p: &[char]) -> (r: Option<usize>)
    ensures
        match r {
            Some(i) => find(s@, p@) == i as int,
            None => find(s@, p@) == -1,
        },
{
    find_from_exec(s, p, 0)
}

/// `str::contains` on character sequences.
pub fn contains_exec(s: &[char], p: &[char]) -> (r: bool)
    ensures
        r == contains(s@, p@),
{
    find_exec(s, p).is_some()
}

// ---------------------------------------------------------------------------
// Single-character search, splitting and lines
// ---------------------------------------------------------------------------

/// The first position at or after `i` that holds `c`, or -1.
pub open spec fn char_pos_from(s: Seq<char>, c: char, i: int) -> int
    decreases s.len() - i,
{
    if i < 0 || i >= s.len() {
        -1
    } else if s[i] == c {
        i
    } else {
        char_pos_from(s, c, i + 1)
    }
}

pub proof fn lemma_char_pos_from(s: Seq<char>, c: char, i: int)
    requires
        0 <= i,
    ensures
        char_pos_from(s, c, i) == -1 || (i <= char_pos_from(s, c, i) < s.len() && s[char_pos_from(
            s,
            c,
            i,
        )] == c),
        forall|j: int|
            i <= j < s.len() && (char_pos_from(s, c, i) == -1 || j < char_pos_from(s, c, i))
                ==> s[j] != c,
    decreases s.len() - i,
{
    if i < s.len() && s[i] != c {
        lemma_char_pos_from(s, c, i + 1);
    }
}

pub fn char_pos_from_exec(s: &[char], c: char, from: usize) -> (r: Option<usize>)
    ensures
        match r {
            Some(i) => char_pos_from(s@, c, from as int) == i as int && i < s@.len(),
            None => char_pos_from(s@, c, from as int) == -1,
        },
{
    let mut i = from;
    while i < s.len()
        invariant
            from <= i,
            char_pos_from(s@, c, from as int) == char_pos_from(s@, c, i as int),
        decreases s@.len() - i,
    {
        if s[i] == c {
            return Some(i);
        }
        i = i + 1;
    }
    None
}

/// `str::split_once(c)`: the parts before and after the first `c`.
pub open spec fn split_once(s: Seq<char>, c: char) -> Option<(Seq<char>, Seq<char>)> {
    let i = char_pos_from(s, c, 0);
    if i < 0 {
        None
    } else {
        Some((s.take(i), s.skip(i + 1)))
    }
}

/// The pieces of `s[i..]` separated by `c` (`str::split(c)`).
pub open spec fn split_from(s: Seq<char>, c: char, i: int) -> Seq<Seq<char>>
    decreases s.len() - i,
{
    if i < 0 || i > s.len() {
        seq![]
    } else {
        let j = char_pos_from(s, c, i);
        if j < i || j >= s.len() {
            seq![s.subrange(i, s.len() as int)]
        } else {
            seq![s.subrange(i, j)].add(split_from(s, c, j + 1))
        }
    }
}

/// `str::split(c)`: the pieces of `s` between occurrences of `c`.
pub open spec fn split(s: Seq<char>, c: char) -> Seq<Seq<char>> {
    split_from(s, c, 0)
}

/// The pieces of `s` between occurrences of `c`, as bounds `(start, end)` into `s`.
pub fn split_ranges(s: &[char], c: char) -> (r: Vec<(usize, usize)>)
    ensures
        r@.len() == split(s@, c).len(),
        forall|k: int|
            0 <= k < r@.len() ==> r@[k].0 <= r@[k].1 <= s@.len() && s@.subrange(
                #[trigger] r@[k].0 as int,
                r@[k].1 as int,
            ) == split(s@, c)[k],
{
    let mut out: Vec<(usize, usize)> = Vec::new();
    let mut i: usize = 0;
    loop
        invariant_except_break
            i <= s@.len(),
            split(s@, c) == out@.map_values(
                |r: (usize, usize)| s@.subrange(r.0 as int, r.1 as int),
            ) + split_from(s@, c, i as int),
        invariant
            forall|k: int| 0 <= k < out@.len() ==> (#[trigger] out@[k]).0 <= out@[k].1 <= s@.len(),
        ensures
            split(s@, c) == out@.map_values(
                |r: (usize, usize)| s@.subrange(r.0 as int, r.1 as int),
            ),
        decreases s@.len() - i,
    {
        let ghost before = out@;
        proof {
            lemma_char_pos_from(s@, c, i as int);
        }
        match char_pos_from_exec(s, c, i) {
            None => {
                out.push((i, s.len()));
                assert(out@.map_values(|r: (usize, usize)| s@.subrange(r.0 as int, r.1 as int))
                    =~= before.map_values(
                    |r: (usize, usize)| s@.subrange(r.0 as int, r.1 as int),
                ).push(s@.subrange(i as int, s@.len() as int)));
                break ;
            },
            Some(j) => {
                let slen = s.len();
                assert(j < slen);
                out.push((i, j));
                assert(out@.map_values(|r: (usize, usize)| s@.subrange(r.0 as int, r.1 as int))
                    =~= before.map_values(
                    |r: (usize, usize)| s@.subrange(r.0 as int, r.1 as int),
                ).push(s@.subrange(i as int, j as int)));
                i = j + 1;
            },
        }
    }
    proof {
        let m = out@.map_values(|r: (usize, usize)| s@.subrange(r.0 as int, r.1 as int));
        assert(split(s@, c) =~= m);
        assert forall|k: int| 0 <= k < out@.len() implies s@.subrange(
            #[trigger] out@[k].0 as int,
            out@[k].1 as int,
        ) == split(s@, c)[k] by {
            assert(m[k] == s@.subrange(out@[k].0 as int, out@[k].1 as int));
        }
    }
    out
}

/// A line without the `'\r'` that precedes its `'\n'`.
pub open spec fn strip_cr(line: Seq<char>) -> Seq<char> {
    if line.len() > 0 && line.last() == '\r' {
        line.drop_last()
    } else {
        line
    }
}

/// The lines of `s[i..]`, as `str::lines` gives them.
pub open spec fn lines_from(s: Seq<char>, i: int) -> Seq<Seq<char>>
    decreases s.len() - i,
{
    if i < 0 || i >= s.len() {
        seq![]
    } else {
        let j = char_pos_from(s, '\n', i);
        if j < i || j >= s.len() {
            seq![s.subrange(i, s.len() as int)]
        } else {
            seq![strip_cr(s.subrange(i, j))].add(lines_from(s, j + 1))
        }
    }
}

/// `str::lines`: lines separated by `"\n"`, a `'\r'` before the `'\n'` removed,
/// and no empty line after a final `"\n"`.
pub open spec fn lines(s: Seq<char>) -> Seq<Seq<char>> {
    lines_from(s, 0)
}

/// The lines of `s`, as bounds `(start, end)` into `s`.
pub fn line_ranges(s: &[char]) -> (r: Vec<(usize, usize)>)
    ensures
        r@.len() == lines(s@).len(),
        forall|k: int|
            0 <= k < r@.len() ==> r@[k].0 <= r@[k].1 <= s@.len() && s@.subrange(
                #[trigger] r@[k].0 as int,
                r@[k].1 as int,
            ) == lines(s@)[k],
{
    let mut out: Vec<(usize, usize)> = Vec::new();
    let mut i: usize = 0;
    while i < s.len()
        invariant
            i <= s@.len(),
            lines(s@) == out@.map_values(
                |r: (usize, usize)| s@.subrange(r.0 as int, r.1 as int),
            ) + lines_from(s@, i as int),
            forall|k: int| 0 <= k < out@.len() ==> (#[trigger] out@[k]).0 <= out@[k].1 <= s@.len(),
        decreases s@.len() - i,
    {
        let ghost before = out@;
        proof {
            lemma_char_pos_from(s@, '\n', i as int);
        }
        match char_pos_from_exec(s, '\n', i) {
            None => {
                out.push((i, s.len()));
                assert(out@.map_values(|r: (usize, usize)| s@.subrange(r.0 as int, r.1 as int))
                    =~= before.map_values(
                    |r: (usize, usize)| s@.subrange(r.0 as int, r.1 as int),
                ).push(s@.subrange(i as int, s@.len() as int)));
                assert(lines_from(s@, s@.len() as int) =~= Seq::<Seq<char>>::empty());
                i = s.len();
            },
            Some(j) => {
                let end = if j > i && s[j - 1] == '\r' {
                    j - 1
                } else {
                    j
                };
                assert(s@.subrange(i as int, end as int) =~= strip_cr(s@.subrange(i as int, j as int)));
                out.push((i, end));
                assert(out@.map_values(|r: (usize, usize)| s@.subrange(r.0 as int, r.1 as int))
                    =~= before.map_values(
                    |r: (usize, usize)| s@.subrange(r.0 as int, r.1 as int),
                ).push(strip_cr(s@.subrange(i as int, j as int))));
                i = j + 1;
            },
        }
    }
    proof {
        let m = out@.map_values(|r: (usize, usize)| s@.subrange(r.0 as int, r.1 as int));
        assert(lines(s@) =~= m);
        assert forall|k: int| 0 <= k < out@.len() implies s@.subrange(
            #[trigger] out@[k].0 as int,
            out@[k].1 as int,
        ) == lines(s@)[k] by {
            assert(m[k] == s@.subrange(out@[k].0 as int, out@[k].1 as int));
        }
    }
    out
}

// ---------------------------------------------------------------------------
// ASCII case
// ---------------------------------------------------------------------------

/// `char::to_ascii_lowercase`.
pub open spec fn ascii_lower(c: char) -> char {
    if 'A' <= c && c <= 'Z' {
        ((c as u32) + 32) as char
    } else {
        c
    }
}

/// `str::to_ascii_lowercase`.
pub open spec fn lower(s: Seq<char>) -> Seq<char> {
    s.map_values(|c: char| ascii_lower(c))
}

pub fn ascii_lower_char(c: char) -> (r: char)
    ensures
        r == ascii_lower(c),
{
    if 'A' <= c && c <= 'Z' {
        let code = (c as u32) + 32;
        assert(0x61 <= code <= 0x7a);
        char_from_ascii(code as u8)
    } else {
        c
    }
}

/// The character with the given ASCII code.
pub fn char_from_ascii(b: u8) -> (c: char)
    requires
        b < 128,
    ensures
        c == b as char,
        c as u32 == b as u32,
{
    b as char
}

pub fn lower_chars(s: &[char]) -> (out: Vec<char>)
    ensures
        out@ == lower(s@),
{
    let mut out: Vec<char> = Vec::new();
    let mut i: usize = 0;
    while i < s.len()
        invariant
            i <= s@.len(),
            out@ == lower(s@.take(i as int)),
        decreases s@.len() - i,
    {
        out.push(ascii_lower_char(s[i]));
        i = i + 1;
        assert(out@ =~= lower(s@.take(i as int)));
    }
    assert(s@.take(i as int) =~= s@);
    out
}


// ---------------------------------------------------------------------------
// Comparisons with string literals
// ---------------------------------------------------------------------------

/// `a == b` on character sequences.
pub fn same_chars(a: &[char], b: &[char]) -> (r: bool)
    ensures
        r == (a@ == b@),
{
    if a.len() != b.len() {
        return false;
    }
    let mut i: usize = 0;
    while i < a.len()
        invariant
            i <= a@.len(),
            a@.len() == b@.len(),
            forall|k: int| 0 <= k < i ==> a@[k] == b@[k],
        decreases a@.len() - i,
    {
        if a[i] != b[i] {
            return false;
        }
        i = i + 1;
    }
    assert(a@ =~= b@);
    true
}

/// Whether the characters `a` spell `lit`.
pub fn equals_str(a: &[char], lit: &str) -> (r: bool)
    ensures
        r == (a@ == lit@),
{
    let b = chars_of(lit);
    same_chars(a, &b)
}

/// Whether `lit` occurs in `s`.
pub fn contains_str(s: &[char], lit: &str) -> (r: bool)
    ensures
        r == contains(s@, lit@),
{
    let p = chars_of(lit);
    contains_exec(s, &p)
}

/// Whether `s` starts with `lit`.
pub fn starts_with_str(s: &[char], lit: &str) -> (r: bool)
    ensures
        r == starts_with(s@, lit@),
{
    let p = chars_of(lit);
    starts_with_exec(s, &p)
}

/// Whether `s` ends with `lit`.
pub fn ends_with_str(s: &[char], lit: &str) -> (r: bool)
    ensures
        r == ends_with(s@, lit@),
{
    let p = chars_of(lit);
    ends_with_exec(s, &p)
}

/// The concatenation of two strings.
pub fn concat(a: &str, b: &str) -> (r: String)
    ensures
        r@ == a@ + b@,
{
    let mut v = chars_of(a);
    let w = chars_of(b);
    extend_chars(&mut v, &w);
    string_of(&v)
}


// ---------------------------------------------------------------------------
// Replacement and the last occurrence of a character
// ---------------------------------------------------------------------------

/// `s[i..]` with every occurrence of `p`, found left to right without overlap, replaced by `q`.
pub open spec fn replace_from(s: Seq<char>, p: Seq<char>, q: Seq<char>, i: int) -> Seq<char>
    decreases s.len() + 1 - i,
{
    if p.len() == 0 || i < 0 || i > s.len() {
        s.skip(i)
    } else {
        let j = find_from(s, p, i);
        proof {
            lemma_find_from(s, p, i);
        }
        if j < i {
            s.skip(i)
        } else {
            s.subrange(i, j) + q + replace_from(s, p, q, j + p.len())
        }
    }
}

/// `str::replace` for a non-empty pattern.
pub open spec fn replace(s: Seq<char>, p: Seq<char>, q: Seq<char>) -> Seq<char> {
    replace_from(s, p, q, 0)
}

/// `str::replace(p, q)` on character sequences, `p` non-empty.
pub fn replace_exec(s: &[char], p: &[char], q: &[char]) -> (out: Vec<char>)
    requires
        p@.len() > 0,
    ensures
        out@ == replace(s@, p@, q@),
{
    let mut out: Vec<char> = Vec::new();
    let mut i: usize = 0;
    loop
        invariant_except_break
            i <= s@.len(),
            replace(s@, p@, q@) == out@ + replace_from(s@, p@, q@, i as int),
        invariant
            p@.len() > 0,
        ensures
            replace(s@, p@, q@) == out@,
        decreases s@.len() + 1 - i,
    {
        proof {
            lemma_find_from(s@, p@, i as int);
        }
        match find_from_exec(s, p, i) {
            None => {
                let tail = chars_range(s, i, s.len());
                assert(tail@ =~= s@.skip(i as int));
                extend_chars(&mut out, &tail);
                break ;
            },
            Some(j) => {
                let mid = chars_range(s, i, j);
                let ghost before = out@;
                extend_chars(&mut out, &mid);
                extend_chars(&mut out, q);
                assert(out@ =~= before + s@.subrange(i as int, j as int) + q@);
                let n = s.len();
                assert(j + p@.len() <= n);
                assert(replace_from(s@, p@, q@, i as int) == s@.subrange(i as int, j as int) + q@ + replace_from(s@, p@, q@, j + p@.len()));
                assert(before + (s@.subrange(i as int, j as int) + q@ + replace_from(s@, p@, q@, j + p@.len())) =~= out@ + replace_from(s@, p@, q@, j + p@.len()));
                i = j + p.len();
            },
        }
    }
    out
}

/// The last position of `c` in `s`, or -1.
pub open spec fn last_char_pos(s: Seq<char>, c: char, end: int) -> int
    decreases end,
{
    if end <= 0 || end > s.len() {
        -1
    } else if s[end - 1] == c {
        end - 1
    } else {
        last_char_pos(s, c, end - 1)
    }
}

/// `str::rsplit_once(c)`: the parts before and after the last `c`.
pub open spec fn rsplit_once(s: Seq<char>, c: char) -> Option<(Seq<char>, Seq<char>)> {
    let i = last_char_pos(s, c, s.len() as int);
    if i < 0 {
        None
    } else {
        Some((s.take(i), s.skip(i + 1)))
    }
}

pub proof fn lemma_last_char_pos(s: Seq<char>, c: char, end: int)
    requires
        0 <= end <= s.len(),
    ensures
        last_char_pos(s, c, end) == -1 || (0 <= last_char_pos(s, c, end) < end && s[last_char_pos(s, c, end)] == c),
    decreases end,
{
    if end > 0 && s[end - 1] != c {
        lemma_last_char_pos(s, c, end - 1);
    }
}

/// `str::rsplit_once(c)` on character sequences.
pub fn rsplit_once_exec(s: &[char], c: char) -> (r: Option<(Vec<char>, Vec<char>)>)
    ensures
        match r {
            Some((a, b)) => rsplit_once(s@, c) == Some((a@, b@)),
            None => rsplit_once(s@, c) is None,
        },
{
    let mut end: usize = s.len();
    while end > 0 && s[end - 1] != c
        invariant
            end <= s@.len(),
            last_char_pos(s@, c, s@.len() as int) == last_char_pos(s@, c, end as int),
        decreases end,
    {
        end = end - 1;
    }
    if end == 0 {
        return None;
    }
    let i = end - 1;
    let a = chars_range(s, 0, i);
    let b = chars_range(s, i + 1, s.len());
    assert(a@ =~= s@.take(i as int));
    assert(b@ =~= s@.skip(i + 1));
    Some((a, b))
}


/// `str::split` always yields at least one piece.
pub proof fn lemma_split_len(s: Seq<char>, c: char)
    ensures
        split(s, c).len() >= 1,
{
    lemma_char_pos_from(s, c, 0);
}

/// An optional string as an optional character sequence.
pub open spec fn opt_view(o: Option<String>) -> Option<Seq<char>> {
    match o {
        Some(s) => Some(s@),
        None => None,
    }
}

/// A copy of an optional string.
pub fn clone_opt(o: &Option<String>) -> (r: Option<String>)
    ensures
        opt_view(r) == opt_view(*o),
{
    match o {
        Some(s) => Some(s.clone()),
        None => None,
    }
}

} // verus!
