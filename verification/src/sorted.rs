//! Name-sorted lists of `name=value` pairs, as a `BTreeMap<String, String>`
//! keeps them, and the `name=value; ...` header they are written as.
use vstd::prelude::*;
use crate::text::extend_chars;

verus! {

/// The lexicographic order of strings by character code (`String`'s `Ord`).
pub open spec fn lex_lt(a: Seq<char>, b: Seq<char>) -> bool
    decreases a.len(),
{
    if a.len() == 0 {
        b.len() > 0
    } else if b.len() == 0 {
        false
    } else if a[0] != b[0] {
        a[0] < b[0]
    } else {
        lex_lt(a.drop_first(), b.drop_first())
    }
}

pub proof fn lemma_lex_trichotomy(a: Seq<char>, b: Seq<char>)
    ensures
        lex_lt(a, b) || lex_lt(b, a) || a == b,
        !(lex_lt(a, b) && lex_lt(b, a)),
    decreases a.len(),
{
    if a.len() == 0 {
        if b.len() == 0 {
            assert(a =~= b);
        }
    } else if b.len() == 0 {
    } else if a[0] != b[0] {
    } else {
        lemma_lex_trichotomy(a.drop_first(), b.drop_first());
        if a.drop_first() == b.drop_first() {
            assert(a =~= seq![a[0]] + a.drop_first());
            assert(b =~= seq![b[0]] + b.drop_first());
        }
    }
}

pub proof fn lemma_lex_transitive(a: Seq<char>, b: Seq<char>, c: Seq<char>)
    requires
        lex_lt(a, b),
        lex_lt(b, c),
    ensures
        lex_lt(a, c),
    decreases a.len(),
{
    if a.len() > 0 && b.len() > 0 && c.len() > 0 && a[0] == b[0] && b[0] == c[0] {
        lemma_lex_transitive(a.drop_first(), b.drop_first(), c.drop_first());
    }
}

/// Whether `a` sorts before `b`.
pub fn lex_lt_exec(a: &[char], b: &[char]) -> (r: bool)
    ensures
        r == lex_lt(a@, b@),
{
    let mut i: usize = 0;
    assert(a@.skip(0) =~= a@);
    assert(b@.skip(0) =~= b@);
    while i < a.len() && i < b.len()
        invariant
            i <= a@.len(),
            i <= b@.len(),
            lex_lt(a@, b@) == lex_lt(a@.skip(i as int), b@.skip(i as int)),
        decreases a@.len() - i,
    {
        let ghost sa = a@.skip(i as int);
        let ghost sb = b@.skip(i as int);
        assert(sa[0] == a@[i as int] && sb[0] == b@[i as int]);
        if a[i] != b[i] {
            return a[i] < b[i];
        }
        assert(sa.drop_first() =~= a@.skip(i + 1));
        assert(sb.drop_first() =~= b@.skip(i + 1));
        i = i + 1;
    }
    assert(a@.skip(i as int).len() == 0 || b@.skip(i as int).len() == 0);
    i == a.len() && i < b.len()
}

/// A list of pairs as plain sequences.
pub open spec fn pairs_view(l: Seq<(Vec<char>, Vec<char>)>) -> Seq<(Seq<char>, Seq<char>)> {
    l.map_values(|p: (Vec<char>, Vec<char>)| (p.0@, p.1@))
}

/// The first position at or after `i` whose name does not sort before `k`.
pub open spec fn insert_pos_from(l: Seq<(Seq<char>, Seq<char>)>, k: Seq<char>, i: int) -> int
    decreases l.len() - i,
{
    if i < 0 || i >= l.len() {
        if i < 0 { 0 } else { l.len() as int }
    } else if lex_lt(l[i].0, k) {
        insert_pos_from(l, k, i + 1)
    } else {
        i
    }
}

/// `name` and `value` entered into a name-sorted list: a present name keeps
/// its first value unless `replace` holds; a new name goes before the first larger one.
pub open spec fn insert_sorted(
    l: Seq<(Seq<char>, Seq<char>)>,
    name: Seq<char>,
    value: Seq<char>,
    replace: bool,
) -> Seq<(Seq<char>, Seq<char>)> {
    let i = insert_pos_from(l, name, 0);
    if i < l.len() && l[i].0 == name {
        if replace {
            l.update(i, (name, value))
        } else {
            l
        }
    } else {
        l.insert(i, (name, value))
    }
}

/// Names strictly increase along the list.
pub open spec fn strictly_sorted(l: Seq<(Seq<char>, Seq<char>)>) -> bool {
    forall|i: int, j: int| 0 <= i < j < l.len() ==> lex_lt(#[trigger] l[i].0, #[trigger] l[j].0)
}

pub proof fn lemma_insert_pos(l: Seq<(Seq<char>, Seq<char>)>, k: Seq<char>, i: int)
    requires
        0 <= i <= l.len(),
    ensures
        i <= insert_pos_from(l, k, i) <= l.len(),
        forall|j: int| i <= j < insert_pos_from(l, k, i) ==> lex_lt(#[trigger] l[j].0, k),
        insert_pos_from(l, k, i) < l.len() ==> !lex_lt(l[insert_pos_from(l, k, i)].0, k),
    decreases l.len() - i,
{
    if i < l.len() && lex_lt(l[i].0, k) {
        lemma_insert_pos(l, k, i + 1);
    }
}

/// Entering a pair keeps a list strictly sorted by name.
pub proof fn lemma_insert_sorted_keeps_order(
    l: Seq<(Seq<char>, Seq<char>)>,
    name: Seq<char>,
    value: Seq<char>,
    replace: bool,
)
    requires
        strictly_sorted(l),
    ensures
        strictly_sorted(insert_sorted(l, name, value, replace)),
{
    lemma_insert_pos(l, name, 0);
    let i = insert_pos_from(l, name, 0);
    let r = insert_sorted(l, name, value, replace);
    if i < l.len() && l[i].0 == name {
        if replace {
            assert forall|a: int, b: int| 0 <= a < b < r.len() implies lex_lt(#[trigger] r[a].0, #[trigger] r[b].0) by {
                assert(r[a].0 == l[a].0);
                assert(r[b].0 == l[b].0);
            }
        }
    } else {
        if i < l.len() {
            lemma_lex_trichotomy(l[i].0, name);
        }
        assert forall|a: int, b: int| 0 <= a < b < r.len() implies lex_lt(#[trigger] r[a].0, #[trigger] r[b].0) by {
            if b < i {
                assert(r[a] == l[a] && r[b] == l[b]);
            } else if b == i {
                assert(r[a] == l[a]);
            } else if a == i {
                assert(r[b] == l[b - 1]);
                if b - 1 > i {
                    lemma_lex_transitive(name, l[i].0, l[b - 1].0);
                }
            } else if a < i {
                assert(r[a] == l[a] && r[b] == l[b - 1]);
            } else {
                assert(r[a] == l[a - 1] && r[b] == l[b - 1]);
            }
        }
    }
}

/// Entering a pair adds nothing but that pair: every pair of the result was
/// in the list or is the entered one.
pub proof fn lemma_insert_sorted_members(
    l: Seq<(Seq<char>, Seq<char>)>,
    name: Seq<char>,
    value: Seq<char>,
    replace: bool,
)
    ensures
        forall|k: int|
            0 <= k < insert_sorted(l, name, value, replace).len() ==> l.contains(
                #[trigger] insert_sorted(l, name, value, replace)[k],
            ) || insert_sorted(l, name, value, replace)[k] == (name, value),
{
    lemma_insert_pos(l, name, 0);
    let i = insert_pos_from(l, name, 0);
    let r = insert_sorted(l, name, value, replace);
    assert forall|k: int| 0 <= k < r.len() implies l.contains(#[trigger] r[k]) || r[k] == (name, value) by {
        if i < l.len() && l[i].0 == name {
            if k != i || !replace {
                assert(r[k] == l[k]);
            }
        } else {
            if k < i {
                assert(r[k] == l[k]);
            } else if k > i {
                assert(r[k] == l[k - 1]);
            }
        }
    }
}

/// Enters `name` and `value` into a name-sorted list (see `insert_sorted`).
pub fn insert_sorted_exec(
    l: &mut Vec<(Vec<char>, Vec<char>)>,
    name: Vec<char>,
    value: Vec<char>,
    replace: bool,
)
    ensures
        pairs_view(final(l)@) == insert_sorted(pairs_view(old(l)@), name@, value@, replace),
{
    let ghost lv = pairs_view(l@);
    let mut i: usize = 0;
    while i < l.len() && lex_lt_exec(&l[i].0, &name)
        invariant
            i <= l@.len(),
            lv == pairs_view(l@),
            insert_pos_from(lv, name@, 0) == insert_pos_from(lv, name@, i as int),
        decreases l@.len() - i,
    {
        assert(lv[i as int].0 == l@[i as int].0@);
        i = i + 1;
    }
    if i < l.len() {
        assert(lv[i as int].0 == l@[i as int].0@);
    }
    if i < l.len() && crate::text::same_chars(&l[i].0, &name) {
        if replace {
            l.set(i, (name, value));
            assert(pairs_view(l@) =~= lv.update(i as int, (name@, value@)));
        }
    } else {
        l.insert(i, (name, value));
        assert(pairs_view(l@) =~= lv.insert(i as int, (name@, value@)));
    }
}

/// `name=value` for one pair.
pub open spec fn pair_text(p: (Seq<char>, Seq<char>)) -> Seq<char> {
    p.0 + "="@ + p.1
}

/// The pairs written `name=value`, separated by `"; "`.
pub open spec fn header_of(l: Seq<(Seq<char>, Seq<char>)>) -> Seq<char>
    decreases l.len(),
{
    if l.len() == 0 {
        Seq::empty()
    } else if l.len() == 1 {
        pair_text(l[0])
    } else {
        header_of(l.drop_last()) + "; "@ + pair_text(l.last())
    }
}

/// Writes the pairs as `name=value; name=value`.
pub fn header_exec(l: &Vec<(Vec<char>, Vec<char>)>) -> (out: Vec<char>)
    ensures
        out@ == header_of(pairs_view(l@)),
{
    let ghost lv = pairs_view(l@);
    let mut out: Vec<char> = Vec::new();
    let eq = crate::text::chars_of("=");
    let sep = crate::text::chars_of("; ");
    let mut i: usize = 0;
    while i < l.len()
        invariant
            i <= l@.len(),
            lv == pairs_view(l@),
            out@ == header_of(lv.take(i as int)),
            eq@ == "="@,
            sep@ == "; "@,
        decreases l@.len() - i,
    {
        let ghost before = out@;
        if i > 0 {
            extend_chars(&mut out, &sep);
        }
        extend_chars(&mut out, &l[i].0);
        extend_chars(&mut out, &eq);
        extend_chars(&mut out, &l[i].1);
        assert(lv.take(i + 1).drop_last() =~= lv.take(i as int));
        assert(lv.take(i + 1).last() == lv[i as int]);
        if i == 0 {
            assert(out@ =~= pair_text(lv[0]));
            assert(header_of(lv.take(1)) == pair_text(lv.take(1)[0]));
        } else {
            assert(out@ =~= before + "; "@ + pair_text(lv[i as int]));
        }
        i = i + 1;
    }
    assert(lv.take(i as int) =~= lv);
    out
}

} // verus!
