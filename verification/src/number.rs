//! Decimal numbers as std reads them (`str::parse` for integers) and writes
//! them (`Display`, with zero padding for `{:0N}`).
use vstd::prelude::*;

verus! {

pub open spec fn is_digit(c: char) -> bool {
    '0' <= c && c <= '9'
}

pub open spec fn digit_value(c: char) -> nat {
    ((c as u32) - ('0' as u32)) as nat
}

pub open spec fn all_digits(d: Seq<char>) -> bool {
    forall|i: int| 0 <= i < d.len() ==> is_digit(#[trigger] d[i])
}

/// The value of a string of decimal digits.
pub open spec fn digits_value(d: Seq<char>) -> nat
    decreases d.len(),
{
    if d.len() == 0 {
        0
    } else {
        digits_value(d.drop_last()) * 10 + digit_value(d.last())
    }
}

/// The digits after an optional leading `'+'`.
pub open spec fn unsigned_digits(s: Seq<char>) -> Seq<char> {
    if s.len() > 0 && s[0] == '+' {
        s.drop_first()
    } else {
        s
    }
}

/// The value that `str::parse` gives an unsigned integer type wide enough
/// for it: an optional `'+'`, then at least one decimal digit, nothing else.
pub open spec fn parse_unsigned(s: Seq<char>) -> Option<nat> {
    let d = unsigned_digits(s);
    if d.len() > 0 && all_digits(d) {
        Some(digits_value(d))
    } else {
        None
    }
}

/// `str::parse::<T>` for an unsigned `T` whose largest value is `max`.
pub open spec fn parse_unsigned_upto(s: Seq<char>, max: nat) -> Option<nat> {
    match parse_unsigned(s) {
        Some(v) => if v <= max {
            Some(v)
        } else {
            None
        },
        None => None,
    }
}

/// `str::parse::<u64>` as an option.
pub open spec fn parse_u64_spec(s: Seq<char>) -> Option<u64> {
    match parse_unsigned_upto(s, u64::MAX as nat) {
        Some(v) => Some(v as u64),
        None => None,
    }
}

/// `str::parse::<usize>` as an option.
pub open spec fn parse_usize_spec(s: Seq<char>) -> Option<usize> {
    match parse_unsigned_upto(s, usize::MAX as nat) {
        Some(v) => Some(v as usize),
        None => None,
    }
}

/// `str::parse::<i64>`: an optional sign, then at least one decimal digit.
pub open spec fn parse_i64_spec(s: Seq<char>) -> Option<int> {
    if s.len() > 0 && s[0] == '-' {
        let d = s.drop_first();
        if d.len() > 0 && all_digits(d) && digits_value(d) <= 0x8000_0000_0000_0000 {
            Some(-(digits_value(d) as int))
        } else {
            None
        }
    } else {
        match parse_unsigned(s) {
            Some(v) => if v <= i64::MAX {
                Some(v as int)
            } else {
                None
            },
            None => None,
        }
    }
}

pub fn is_digit_exec(c: char) -> (r: bool)
    ensures
        r == is_digit(c),
{
    '0' <= c && c <= '9'
}

/// The value of `d[lo..hi]` as decimal digits, if they are all digits and it is at most `max`.
fn digits_upto(d: &[char], lo: usize, hi: usize, max: u64) -> (r: Option<u64>)
    requires
        lo <= hi <= d@.len(),
    ensures
        match r {
            Some(v) => all_digits(d@.subrange(lo as int, hi as int)) && v == digits_value(
                d@.subrange(lo as int, hi as int),
            ) && v <= max,
            None => !all_digits(d@.subrange(lo as int, hi as int)) || digits_value(
                d@.subrange(lo as int, hi as int),
            ) > max,
        },
{
    let mut v: u64 = 0;
    let mut i: usize = lo;
    let mut too_big = false;
    while i < hi
        invariant
            lo <= i <= hi <= d@.len(),
            all_digits(d@.subrange(lo as int, i as int)),
            !too_big ==> v == digits_value(d@.subrange(lo as int, i as int)) && v <= max,
            too_big ==> digits_value(d@.subrange(lo as int, i as int)) > max,
        decreases hi - i,
    {
        let c = d[i];
        if !is_digit_exec(c) {
            assert(!is_digit(d@.subrange(lo as int, hi as int)[i - lo]));
            return None;
        }
        let ghost prev = d@.subrange(lo as int, i as int);
        let ghost next = d@.subrange(lo as int, i + 1);
        assert(next.drop_last() =~= prev);
        assert(all_digits(next)) by {
            assert forall|k: int| 0 <= k < next.len() implies is_digit(#[trigger] next[k]) by {
                if k < prev.len() {
                    assert(next[k] == prev[k]);
                }
            }
        }
        let dv = ((c as u32) - ('0' as u32)) as u64;
        assert(dv == digit_value(c));
        if !too_big {
            if dv > max || v > (max - dv) / 10 {
                too_big = true;
                assert(digits_value(next) == v * 10 + dv);
                assert(v * 10 + dv > max) by (nonlinear_arith)
                    requires
                        dv > max || (dv <= max && v > (max - dv) / 10),
                ;
            } else {
                assert(v * 10 + dv <= max) by (nonlinear_arith)
                    requires
                        v <= (max - dv) / 10,
                        dv <= 9,
                ;
                v = v * 10 + dv;
            }
        } else {
            assert(digits_value(next) >= digits_value(prev)) by (nonlinear_arith)
                requires
                    digits_value(next) == digits_value(prev) * 10 + dv,
            ;
        }
        i = i + 1;
    }
    if too_big {
        None
    } else {
        Some(v)
    }
}

/// `str::parse` for an unsigned integer type whose largest value is `max`.
pub fn parse_unsigned_exec(s: &[char], max: u64) -> (r: Option<u64>)
    ensures
        match r {
            Some(v) => parse_unsigned_upto(s@, max as nat) == Some(v as nat),
            None => parse_unsigned_upto(s@, max as nat) is None,
        },
{
    let lo: usize = if s.len() > 0 && s[0] == '+' {
        1
    } else {
        0
    };
    assert(unsigned_digits(s@) =~= s@.subrange(lo as int, s@.len() as int));
    if lo == s.len() {
        return None;
    }
    digits_upto(s, lo, s.len(), max)
}

/// `str::parse::<u64>`.
pub fn parse_u64(s: &[char]) -> (r: Option<u64>)
    ensures
        match r {
            Some(v) => parse_unsigned_upto(s@, u64::MAX as nat) == Some(v as nat),
            None => parse_unsigned_upto(s@, u64::MAX as nat) is None,
        },
{
    parse_unsigned_exec(s, u64::MAX)
}

/// `str::parse::<usize>`.
pub fn parse_usize(s: &[char]) -> (r: Option<usize>)
    ensures
        match r {
            Some(v) => parse_unsigned_upto(s@, usize::MAX as nat) == Some(v as nat),
            None => parse_unsigned_upto(s@, usize::MAX as nat) is None,
        },
{
    match parse_unsigned_exec(s, usize::MAX as u64) {
        Some(v) => Some(v as usize),
        None => None,
    }
}

/// `str::parse::<u16>`.
pub fn parse_u16(s: &[char]) -> (r: Option<u16>)
    ensures
        match r {
            Some(v) => parse_unsigned_upto(s@, u16::MAX as nat) == Some(v as nat),
            None => parse_unsigned_upto(s@, u16::MAX as nat) is None,
        },
{
    match parse_unsigned_exec(s, u16::MAX as u64) {
        Some(v) => Some(v as u16),
        None => None,
    }
}

/// `str::parse::<i64>`.
pub fn parse_i64(s: &[char]) -> (r: Option<i64>)
    ensures
        match r {
            Some(v) => parse_i64_spec(s@) == Some(v as int),
            None => parse_i64_spec(s@) is None,
        },
{
    if s.len() > 0 && s[0] == '-' {
        assert(s@.drop_first() =~= s@.subrange(1, s@.len() as int));
        if s.len() == 1 {
            return None;
        }
        match digits_upto(s, 1, s.len(), 0x8000_0000_0000_0000u64) {
            Some(v) => {
                if v == 0x8000_0000_0000_0000u64 {
                    Some(i64::MIN)
                } else {
                    Some(-(v as i64))
                }
            },
            None => None,
        }
    } else {
        match parse_unsigned_exec(s, i64::MAX as u64) {
            Some(v) => Some(v as i64),
            None => None,
        }
    }
}

/// The decimal digit for `n < 10`.
pub open spec fn digit_char(n: nat) -> char {
    ((n + ('0' as u32)) as u32) as char
}

/// `Display` of a non-negative integer: its decimal digits, no leading zeros.
pub open spec fn decimal(n: nat) -> Seq<char>
    decreases n,
{
    if n < 10 {
        seq![digit_char(n)]
    } else {
        decimal(n / 10).push(digit_char(n % 10))
    }
}

/// `{:0width}` for a non-negative integer: its digits, zero-filled on the left to `width`.
pub open spec fn zero_padded(n: nat, width: nat) -> Seq<char> {
    let d = decimal(n);
    if d.len() >= width {
        d
    } else {
        Seq::new((width - d.len()) as nat, |i: int| '0') + d
    }
}

/// The decimal digits of `n`.
pub fn decimal_chars(n: u64) -> (out: Vec<char>)
    ensures
        out@ == decimal(n as nat),
    decreases n,
{
    let d = char_from_digit((n % 10) as u8);
    if n < 10 {
        let mut v: Vec<char> = Vec::new();
        v.push(d);
        assert(v@ =~= seq![digit_char(n as nat)]);
        v
    } else {
        let mut v = decimal_chars(n / 10);
        v.push(d);
        v
    }
}

fn char_from_digit(d: u8) -> (c: char)
    requires
        d < 10,
    ensures
        c == digit_char(d as nat),
{
    let code: u8 = d + 48;
    let c = crate::text::char_from_ascii(code);
    assert(c as u32 == (d as nat + ('0' as u32)) as u32);
    c
}

/// The decimal digits of `n`, zero-filled on the left to `width`.
pub fn zero_padded_chars(n: u64, width: usize) -> (out: Vec<char>)
    ensures
        out@ == zero_padded(n as nat, width as nat),
{
    let d = decimal_chars(n);
    if d.len() >= width {
        d
    } else {
        let mut out: Vec<char> = Vec::new();
        let fill = width - d.len();
        let mut i: usize = 0;
        while i < fill
            invariant
                i <= fill,
                out@ == Seq::new(i as nat, |k: int| '0'),
            decreases fill - i,
        {
            out.push('0');
            i = i + 1;
            assert(out@ =~= Seq::new(i as nat, |k: int| '0'));
        }
        crate::text::extend_chars(&mut out, &d);
        out
    }
}

/// The decimal digits of `n` as a `String`.
pub fn decimal_string(n: u64) -> (out: String)
    ensures
        out@ == decimal(n as nat),
{
    let v = decimal_chars(n);
    crate::text::string_of(&v)
}

} // verus!
