//! JSON documents as plain values, read the way `serde_json::Value` reads
//! them: members by key, unsigned and signed integers, strings and arrays.
use vstd::prelude::*;
use crate::number::{parse_usize, parse_usize_spec};
use crate::text::{
    chars_of, lemma_split_len, replace, replace_exec, same_chars, split, split_ranges, starts_with,
    starts_with_str, string_of,
};

verus! {

/// A JSON number: its value where it is an integer that fits, and its text.
#[derive(Debug)]
pub struct JsonNumber {
    pub as_u64: Option<u64>,
    pub as_i64: Option<i64>,
    pub text: String,
}

/// A JSON value.  An object keeps its members in order, each key once.
#[derive(Debug)]
pub enum JsonValue {
    Null,
    Bool(bool),
    Number(JsonNumber),
    String(String),
    Array(Vec<JsonValue>),
    Object(Vec<(String, JsonValue)>),
}

/// The value of the first member at or after `i` whose key is `key`.
pub open spec fn member_from(members: Seq<(String, JsonValue)>, key: Seq<char>, i: int) -> Option<JsonValue>
    decreases members.len() - i,
{
    if i < 0 || i >= members.len() {
        None
    } else if members[i].0@ == key {
        Some(members[i].1)
    } else {
        member_from(members, key, i + 1)
    }
}

/// `Value::get(key)`: the member `key` of an object; `None` for anything else.
pub open spec fn json_get(v: JsonValue, key: Seq<char>) -> Option<JsonValue> {
    match v {
        JsonValue::Object(members) => member_from(members@, key, 0),
        _ => None,
    }
}

/// The member `key` of an object, taken out of it (`Value::get` then an owned
/// copy); `None` for anything else.
pub fn take_member(v: JsonValue, key: &str) -> (r: Option<JsonValue>)
    ensures
        r == json_get(v, key@),
{
    let ghost whole = v;
    let k = crate::text::chars_of(key);
    match v {
        JsonValue::Object(owned) => {
            let mut members = owned;
            let mut i: usize = 0;
            let ghost m = members@;
            while i < members.len()
                invariant
                    i <= members@.len(),
                    members@ == m,
                    whole == v,
                    json_get(whole, key@) == member_from(m, key@, 0),
                    member_from(m, key@, 0) == member_from(m, key@, i as int),
                    k@ == key@,
                decreases members@.len() - i,
            {
                let name = crate::text::chars_of(members[i].0.as_str());
                if same_chars(&name, &k) {
                    assert(member_from(m, key@, i as int) == Some(m[i as int].1));
                    let pair = members.swap_remove(i);
                    assert(pair == m[i as int]);
                    assert(json_get(whole, key@) == Some(pair.1));
                    return Some(pair.1);
                }
                i = i + 1;
            }
            None
        },
        _ => None,
    }
}

/// `Value::get(key)` on an optional value.
pub open spec fn json_get_opt(v: Option<JsonValue>, key: Seq<char>) -> Option<JsonValue> {
    match v {
        Some(x) => json_get(x, key),
        None => None,
    }
}

/// `Value::as_u64`.
pub open spec fn json_u64(v: Option<JsonValue>) -> Option<u64> {
    match v {
        Some(JsonValue::Number(n)) => n.as_u64,
        _ => None,
    }
}

/// `Value::as_i64`.
pub open spec fn json_i64(v: Option<JsonValue>) -> Option<i64> {
    match v {
        Some(JsonValue::Number(n)) => n.as_i64,
        _ => None,
    }
}

/// `Value::as_str`.
pub open spec fn json_str(v: Option<JsonValue>) -> Option<Seq<char>> {
    match v {
        Some(JsonValue::String(s)) => Some(s@),
        _ => None,
    }
}

/// `Value::as_array`, as the sequence of items (empty for a non-array, as
/// `into_iter().flatten()` reads it).
pub open spec fn json_items(v: Option<JsonValue>) -> Seq<JsonValue> {
    match v {
        Some(JsonValue::Array(items)) => items@,
        _ => Seq::empty(),
    }
}

/// The value reached by following object keys (`Value::pointer` with a path of keys).
pub open spec fn json_path(v: Option<JsonValue>, keys: Seq<Seq<char>>) -> Option<JsonValue>
    decreases keys.len(),
{
    if keys.len() == 0 {
        v
    } else {
        json_path(json_get_opt(v, keys[0]), keys.drop_first())
    }
}

impl JsonValue {
    /// `Value::get(key)`.
    pub fn get(&self, key: &str) -> (r: Option<&JsonValue>)
        ensures
            match r {
                Some(x) => json_get(*self, key@) == Some(*x),
                None => json_get(*self, key@) is None,
            },
    {
        let k = crate::text::chars_of(key);
        match self {
            JsonValue::Object(members) => {
                let mut i: usize = 0;
                assert(json_get(*self, key@) == member_from(members@, key@, 0));
                while i < members.len()
                    invariant
                        i <= members@.len(),
                        json_get(*self, key@) == member_from(members@, key@, 0),
                        member_from(members@, key@, 0) == member_from(members@, key@, i as int),
                        k@ == key@,
                    decreases members@.len() - i,
                {
                    let name = crate::text::chars_of(members[i].0.as_str());
                    if same_chars(&name, &k) {
                        assert(members@[i as int].0@ == key@);
                        assert(member_from(members@, key@, i as int) == Some(members@[i as int].1));
                        let found = &members[i].1;
                        assert(*found == members@[i as int].1);
                        return Some(found);
                    }
                    i = i + 1;
                }
                None
            },
            _ => None,
        }
    }

    /// `Value::as_u64`.
    pub fn as_u64(&self) -> (r: Option<u64>)
        ensures
            r == json_u64(Some(*self)),
    {
        match self {
            JsonValue::Number(n) => n.as_u64,
            _ => None,
        }
    }

    /// `Value::as_i64`.
    pub fn as_i64(&self) -> (r: Option<i64>)
        ensures
            r == json_i64(Some(*self)),
    {
        match self {
            JsonValue::Number(n) => n.as_i64,
            _ => None,
        }
    }

    /// `Value::as_str`.
    pub fn as_str(&self) -> (r: Option<&str>)
        ensures
            match r {
                Some(s) => json_str(Some(*self)) == Some(s@),
                None => json_str(Some(*self)) is None,
            },
    {
        match self {
            JsonValue::String(s) => Some(s.as_str()),
            _ => None,
        }
    }

    /// The items of an array; none for any other value.
    pub fn items(&self) -> (r: &[JsonValue])
        ensures
            r@ == json_items(Some(*self)),
    {
        match self {
            JsonValue::Array(items) => items.as_slice(),
            _ => &[],
        }
    }
}

/// `Value::get` on an optional value.
pub fn get_opt<'a>(v: Option<&'a JsonValue>, key: &str) -> (r: Option<&'a JsonValue>)
    ensures
        match r {
            Some(x) => json_get_opt(
                match v {
                    Some(y) => Some(*y),
                    None => None,
                },
                key@,
            ) == Some(*x),
            None => json_get_opt(
                match v {
                    Some(y) => Some(*y),
                    None => None,
                },
                key@,
            ) is None,
        },
{
    match v {
        Some(x) => x.get(key),
        None => None,
    }
}

/// The spec view of an optional borrowed value.
pub open spec fn opt(v: Option<&JsonValue>) -> Option<JsonValue> {
    match v {
        Some(x) => Some(*x),
        None => None,
    }
}

/// `Value::as_u64` on an optional value.
pub fn u64_of(v: Option<&JsonValue>) -> (r: Option<u64>)
    ensures
        r == json_u64(opt(v)),
{
    match v {
        Some(x) => x.as_u64(),
        None => None,
    }
}

/// `Value::as_i64` on an optional value.
pub fn i64_of(v: Option<&JsonValue>) -> (r: Option<i64>)
    ensures
        r == json_i64(opt(v)),
{
    match v {
        Some(x) => x.as_i64(),
        None => None,
    }
}

/// `Value::as_str` on an optional value.
pub fn str_of(v: Option<&JsonValue>) -> (r: Option<&str>)
    ensures
        match r {
            Some(s) => json_str(opt(v)) == Some(s@),
            None => json_str(opt(v)) is None,
        },
{
    match v {
        Some(x) => x.as_str(),
        None => None,
    }
}

/// The items of an optional array.
pub fn items_of(v: Option<&JsonValue>) -> (r: &[JsonValue])
    ensures
        r@ == json_items(opt(v)),
{
    match v {
        Some(x) => x.items(),
        None => &[],
    }
}


// ---------------------------------------------------------------------------
// Compact JSON text (what `Value`'s `Display` writes)
// ---------------------------------------------------------------------------

pub open spec fn hex_digit(n: nat) -> char {
    if n < 10 {
        ((n + 48) as u32) as char
    } else {
        ((n + 87) as u32) as char
    }
}

/// How one character of a string is written inside quotes.
pub open spec fn escape_char(c: char) -> Seq<char> {
    if c == '"' {
        seq!['\\', '"']
    } else if c == '\\' {
        seq!['\\', '\\']
    } else if c == '\x08' {
        seq!['\\', 'b']
    } else if c == '\t' {
        seq!['\\', 't']
    } else if c == '\n' {
        seq!['\\', 'n']
    } else if c == '\x0C' {
        seq!['\\', 'f']
    } else if c == '\r' {
        seq!['\\', 'r']
    } else if (c as u32) < 0x20 {
        seq!['\\', 'u', '0', '0', hex_digit(((c as u32) / 16) as nat), hex_digit(((c as u32) % 16) as nat)]
    } else {
        seq![c]
    }
}

pub open spec fn escaped(s: Seq<char>) -> Seq<char>
    decreases s.len(),
{
    if s.len() == 0 {
        Seq::empty()
    } else {
        escaped(s.drop_last()) + escape_char(s.last())
    }
}

/// A string written as a JSON string literal.
pub open spec fn quoted(s: Seq<char>) -> Seq<char> {
    seq!['"'] + escaped(s) + seq!['"']
}

/// The compact JSON text of a value.
pub open spec fn json_text(v: JsonValue) -> Seq<char>
    decreases v, 0nat,
{
    match v {
        JsonValue::Null => "null"@,
        JsonValue::Bool(b) => if b {
            "true"@
        } else {
            "false"@
        },
        JsonValue::Number(n) => n.text@,
        JsonValue::String(s) => quoted(s@),
        JsonValue::Array(items) => seq!['['] + items_text(items@, items@.len() as int) + seq![']'],
        JsonValue::Object(members) => seq!['{'] + members_text(members@, members@.len() as int) + seq![
            '}',
        ],
    }
}

/// The first `n` items, written and separated by commas.
pub open spec fn items_text(items: Seq<JsonValue>, n: int) -> Seq<char>
    decreases items, n,
{
    if n <= 0 || n > items.len() {
        Seq::empty()
    } else if n == 1 {
        json_text(items[0])
    } else {
        items_text(items, n - 1) + seq![','] + json_text(items[n - 1])
    }
}

/// The first `n` members, written `"key":value` and separated by commas.
pub open spec fn members_text(members: Seq<(String, JsonValue)>, n: int) -> Seq<char>
    decreases members, n,
{
    if n <= 0 || n > members.len() {
        Seq::empty()
    } else if n == 1 {
        quoted(members[0].0@) + seq![':'] + json_text(members[0].1)
    } else {
        members_text(members, n - 1) + seq![','] + quoted(members[n - 1].0@) + seq![':'] + json_text(
            members[n - 1].1,
        )
    }
}


fn hex_digit_exec(n: u32) -> (c: char)
    requires
        n < 16,
    ensures
        c == hex_digit(n as nat),
{
    if n < 10 {
        crate::text::char_from_ascii((n + 48) as u8)
    } else {
        crate::text::char_from_ascii((n + 87) as u8)
    }
}

/// Writes the escaped characters of a string, in quotes, onto `out`.
pub fn push_quoted(out: &mut Vec<char>, s: &str)
    ensures
        final(out)@ == old(out)@ + quoted(s@),
{
    let chars = crate::text::chars_of(s);
    out.push('"');
    let ghost start = out@;
    let mut i: usize = 0;
    while i < chars.len()
        invariant
            i <= chars@.len(),
            out@ == start + escaped(chars@.take(i as int)),
        decreases chars@.len() - i,
    {
        let c = chars[i];
        let ghost before = out@;
        if c == '"' {
            out.push('\\');
            out.push('"');
        } else if c == '\\' {
            out.push('\\');
            out.push('\\');
        } else if c == '\x08' {
            out.push('\\');
            out.push('b');
        } else if c == '\t' {
            out.push('\\');
            out.push('t');
        } else if c == '\n' {
            out.push('\\');
            out.push('n');
        } else if c == '\x0C' {
            out.push('\\');
            out.push('f');
        } else if c == '\r' {
            out.push('\\');
            out.push('r');
        } else if (c as u32) < 0x20 {
            out.push('\\');
            out.push('u');
            out.push('0');
            out.push('0');
            out.push(hex_digit_exec((c as u32) / 16));
            out.push(hex_digit_exec((c as u32) % 16));
        } else {
            out.push(c);
        }
        assert(out@ =~= before + escape_char(c));
        assert(chars@.take(i + 1).drop_last() =~= chars@.take(i as int));
        i = i + 1;
    }
    assert(chars@.take(i as int) =~= chars@);
    out.push('"');
    assert(out@ =~= old(out)@ + quoted(s@));
}

/// Writes the compact JSON text of a value onto `out`.
pub fn push_json_text(out: &mut Vec<char>, v: &JsonValue)
    ensures
        final(out)@ == old(out)@ + json_text(*v),
    decreases v,
{
    match v {
        JsonValue::Null => {
            let t = crate::text::chars_of("null");
            crate::text::extend_chars(out, &t);
        },
        JsonValue::Bool(b) => {
            let t = if *b {
                crate::text::chars_of("true")
            } else {
                crate::text::chars_of("false")
            };
            crate::text::extend_chars(out, &t);
        },
        JsonValue::Number(n) => {
            let t = crate::text::chars_of(n.text.as_str());
            crate::text::extend_chars(out, &t);
        },
        JsonValue::String(s) => {
            push_quoted(out, s.as_str());
        },
        JsonValue::Array(items) => {
            out.push('[');
            let ghost start = out@;
            let mut i: usize = 0;
            while i < items.len()
                invariant
                    i <= items@.len(),
                    out@ == start + items_text(items@, i as int),
                    *v == JsonValue::Array(*items),
                decreases items@.len() - i,
            {
                let ghost before = out@;
                if i > 0 {
                    out.push(',');
                }
                assert(decreases_to!(*v => (*v)->Array_0));
                assert((*v)->Array_0 == *items);
                assert(decreases_to!(*items => items@));
                assert(decreases_to!(items@ => items@[i as int]));
                assert(decreases_to!(*v => items@[i as int]));
                push_json_text(out, &items[i]);
                if i == 0 {
                    assert(out@ =~= start + items_text(items@, 1));
                } else {
                    assert(out@ =~= start + items_text(items@, i + 1));
                }
                i = i + 1;
            }
            out.push(']');
            assert(out@ =~= old(out)@ + json_text(*v));
        },
        JsonValue::Object(members) => {
            out.push('{');
            let ghost start = out@;
            let mut i: usize = 0;
            while i < members.len()
                invariant
                    i <= members@.len(),
                    out@ == start + members_text(members@, i as int),
                    *v == JsonValue::Object(*members),
                decreases members@.len() - i,
            {
                if i > 0 {
                    out.push(',');
                }
                push_quoted(out, members[i].0.as_str());
                out.push(':');
                assert(decreases_to!(*v => (*v)->Object_0));
                assert((*v)->Object_0 == *members);
                assert(decreases_to!(*members => members@));
                assert(decreases_to!(members@ => members@[i as int]));
                assert(decreases_to!(members@[i as int] => members@[i as int].1));
                assert(decreases_to!(*v => members@[i as int].1));
                push_json_text(out, &members[i].1);
                if i == 0 {
                    assert(out@ =~= start + members_text(members@, 1));
                } else {
                    assert(out@ =~= start + members_text(members@, i + 1));
                }
                i = i + 1;
            }
            out.push('}');
            assert(out@ =~= old(out)@ + json_text(*v));
        },
    }
}

/// The compact JSON text of a value (`Value::to_string`).
pub fn to_json_text(v: &JsonValue) -> (r: String)
    ensures
        r@ == json_text(*v),
{
    let mut out: Vec<char> = Vec::new();
    push_json_text(&mut out, v);
    assert(out@ =~= json_text(*v));
    crate::text::string_of(&out)
}

#[verifier::external_type_specification]
#[verifier::external_body]
pub struct ExSerdeValue(serde_json::Value);

/// `serde_json::Value` as the library's JSON value, variant for variant: a
/// number keeps `as_u64`, `as_i64` and its text, an object its members in
/// the map's order.
#[verifier::external_body]
fn from_serde(v: &serde_json::Value) -> JsonValue {
    match v {
        serde_json::Value::Null => JsonValue::Null,
        serde_json::Value::Bool(b) => JsonValue::Bool(*b),
        serde_json::Value::Number(n) => JsonValue::Number(
            JsonNumber { as_u64: n.as_u64(), as_i64: n.as_i64(), text: n.to_string() },
        ),
        serde_json::Value::String(x) => JsonValue::String(x.clone()),
        serde_json::Value::Array(a) => JsonValue::Array(a.iter().map(from_serde).collect()),
        serde_json::Value::Object(m) => JsonValue::Object(m.iter().map(|(k, x)| (k.clone(), from_serde(x))).collect()),
    }
}

/// What `serde_json::from_str::<Value>(text)` gives: the value, or the
/// message of the error.
pub uninterp spec fn json_parse_of(text: Seq<char>) -> std::result::Result<JsonValue, Seq<char>>;

/// `serde_json::from_str::<Value>(text)`, the value converted by
/// `from_serde`, the error by its message.
#[verifier::external_body]
pub(crate) fn parse_json_text(text: &str) -> (r: std::result::Result<JsonValue, String>)
    ensures
        match r {
            Ok(v) => json_parse_of(text@) == Ok::<JsonValue, Seq<char>>(v),
            Err(m) => json_parse_of(text@) == Err::<JsonValue, Seq<char>>(m@),
        },
{
    serde_json::from_str::<serde_json::Value>(text).map(|v| from_serde(&v)).map_err(|e| e.to_string())
}

/// A JSON pointer token with its escapes undone: `~1` is `/`, then `~0` is `~`.
pub open spec fn pointer_token(t: Seq<char>) -> Seq<char> {
    replace(replace(t, "~1"@, "/"@), "~0"@, "~"@)
}

/// An array index as a pointer token writes it: decimal, without a sign and
/// without leading zeros.
pub open spec fn array_index(t: Seq<char>) -> Option<usize> {
    if starts_with(t, "+"@) || (starts_with(t, "0"@) && t.len() != 1) {
        None
    } else {
        parse_usize_spec(t)
    }
}

/// The value reached from `v` by the tokens from `i` on.
pub open spec fn json_at_tokens(v: JsonValue, tokens: Seq<Seq<char>>, i: int) -> Option<JsonValue>
    decreases tokens.len() - i,
{
    if i < 0 || i >= tokens.len() {
        Some(v)
    } else {
        match v {
            JsonValue::Object(members) => match member_from(members@, pointer_token(tokens[i]), 0) {
                Some(x) => json_at_tokens(x, tokens, i + 1),
                None => None,
            },
            JsonValue::Array(items) => match array_index(pointer_token(tokens[i])) {
                Some(k) => if k < items@.len() {
                    json_at_tokens(items@[k as int], tokens, i + 1)
                } else {
                    None
                },
                None => None,
            },
            _ => None,
        }
    }
}

/// `Value::pointer`: the empty pointer is the value itself; otherwise the
/// pointer starts with `/` and each `/`-separated token selects a member or
/// an array item.
pub open spec fn json_pointer(v: JsonValue, pointer: Seq<char>) -> Option<JsonValue> {
    if pointer.len() == 0 {
        Some(v)
    } else if !starts_with(pointer, "/"@) {
        None
    } else {
        json_at_tokens(v, split(pointer, '/').drop_first(), 0)
    }
}

/// The value a JSON pointer leads to (`Value::pointer`).
pub fn pointer<'a>(v: &'a JsonValue, ptr: &str) -> (r: Option<&'a JsonValue>)
    ensures
        match r {
            Some(x) => json_pointer(*v, ptr@) == Some(*x),
            None => json_pointer(*v, ptr@) is None,
        },
{
    let p = chars_of(ptr);
    if p.len() == 0 {
        return Some(v);
    }
    if p[0] != '/' {
        proof {
            reveal_strlit("/");
            if starts_with(ptr@, "/"@) {
                assert(ptr@.subrange(0, 1)[0] == ptr@[0]);
                assert(ptr@.subrange(0, 1) =~= "/"@);
            }
        }
        return None;
    }
    proof {
        reveal_strlit("/");
        assert(ptr@.subrange(0, 1) =~= "/"@);
    }
    let ranges = split_ranges(&p, '/');
    let ghost tokens = split(p@, '/').drop_first();
    proof {
        lemma_split_len(p@, '/');
    }
    let tilde1 = chars_of("~1");
    let slash = chars_of("/");
    let tilde0 = chars_of("~0");
    let tilde = chars_of("~");
    proof {
        reveal_strlit("~1");
        reveal_strlit("~0");
    }
    let mut cur: &JsonValue = v;
    let mut i: usize = 1;
    while i < ranges.len()
        invariant
            1 <= i <= ranges@.len(),
            ranges@.len() == split(p@, '/').len(),
            ranges@.len() >= 1,
            tokens == split(p@, '/').drop_first(),
            p@ == ptr@,
            tilde1@ == "~1"@,
            slash@ == "/"@,
            tilde0@ == "~0"@,
            tilde@ == "~"@,
            "~1"@.len() > 0,
            "~0"@.len() > 0,
            forall|k: int|
                0 <= k < ranges@.len() ==> ranges@[k].0 <= ranges@[k].1 <= p@.len() && p@.subrange(
                    #[trigger] ranges@[k].0 as int,
                    ranges@[k].1 as int,
                ) == split(p@, '/')[k],
            json_pointer(*v, ptr@) == json_at_tokens(*cur, tokens, i - 1),
        decreases ranges@.len() - i,
    {
        let (a, b) = ranges[i];
        let raw = crate::text::chars_range(&p, a, b);
        assert(raw@ == tokens[i - 1]);
        let once = replace_exec(&raw, &tilde1, &slash);
        let token = replace_exec(&once, &tilde0, &tilde);
        assert(token@ == pointer_token(tokens[i - 1]));
        let next: Option<&JsonValue> = match cur {
            JsonValue::Object(_) => {
                let name = string_of(&token);
                cur.get(name.as_str())
            },
            JsonValue::Array(items) => {
                let plus = starts_with_str(&token, "+");
                let zero = starts_with_str(&token, "0");
                if plus || (zero && token.len() != 1) {
                    None
                } else {
                    match parse_usize(&token) {
                        Some(k) => if k < items.len() {
                            Some(&items[k])
                        } else {
                            None
                        },
                        None => None,
                    }
                }
            },
            _ => None,
        };
        match next {
            Some(x) => {
                cur = x;
            },
            None => {
                return None;
            },
        }
        i = i + 1;
    }
    Some(cur)
}

} // verus!
