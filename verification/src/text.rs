//! Text primitives the library's contracts are written over: the whitespace
//! model used for trimming, newline splitting, and the lexicographic order
//! on character sequences used to sort passwords and volume paths.

use vstd::prelude::*;
use vstd::string::StrSliceExecFns;

verus! {

/// The views of a sequence of strings, line by line.
pub open spec fn seq_views(v: Seq<String>) -> Seq<Seq<char>> {
    v.map_values(|s: String| s@)
}

/// The whitespace model: the ASCII blank characters that trimming removes
/// from both ends of a dictionary line.
pub open spec fn is_space_char(c: char) -> bool {
    c == ' ' || c == '\t' || c == '\r' || c == '\n' || c == '\u{b}' || c == '\u{c}'
}

/// Runtime test for [`is_space_char`].
pub fn is_space(c: char) -> (r: bool)
    ensures
        r == is_space_char(c),
{
    c == ' ' || c == '\t' || c == '\r' || c == '\n' || c == '\u{b}' || c == '\u{c}'
}

/// `s` with its leading whitespace removed.
pub open spec fn spec_trim_start(s: Seq<char>) -> Seq<char>
    decreases s.len(),
{
    if s.len() > 0 && is_space_char(s[0]) {
        spec_trim_start(s.drop_first())
    } else {
        s
    }
}

/// `s` with its trailing whitespace removed.
pub open spec fn spec_trim_end(s: Seq<char>) -> Seq<char>
    decreases s.len(),
{
    if s.len() > 0 && is_space_char(s.last()) {
        spec_trim_end(s.drop_last())
    } else {
        s
    }
}

/// `s` with whitespace removed from both ends.
pub open spec fn spec_trim(s: Seq<char>) -> Seq<char> {
    spec_trim_end(spec_trim_start(s))
}

/// Trimming the start keeps a suffix: if everything before `a` is whitespace
/// and position `a` (when it exists) is not, the trimmed-start value is
/// exactly the suffix from `a`.
proof fn lemma_trim_start_at(s: Seq<char>, a: int)
    requires
        0 <= a <= s.len(),
        forall|k: int| 0 <= k < a ==> is_space_char(s[k]),
        a < s.len() ==> !is_space_char(s[a]),
    ensures
        spec_trim_start(s) == s.subrange(a, s.len() as int),
    decreases a,
{
    if a == 0 {
        assert(s.subrange(0, s.len() as int) =~= s);
    } else {
        lemma_trim_start_at(s.drop_first(), a - 1);
        assert(s.drop_first().subrange(a - 1, s.drop_first().len() as int) =~= s.subrange(
            a,
            s.len() as int,
        ));
    }
}

/// Trimming the end keeps a prefix: if everything from `b` on is whitespace
/// and position `b - 1` (when it exists) is not, the trimmed-end value is
/// exactly the prefix up to `b`.
proof fn lemma_trim_end_at(s: Seq<char>, b: int)
    requires
        0 <= b <= s.len(),
        forall|k: int| b <= k < s.len() ==> is_space_char(s[k]),
        b > 0 ==> !is_space_char(s[b - 1]),
    ensures
        spec_trim_end(s) == s.subrange(0, b),
    decreases s.len(),
{
    if b == s.len() {
        if s.len() > 0 {
            assert(!is_space_char(s.last()));
        }
        assert(s.subrange(0, s.len() as int) =~= s);
    } else {
        assert(is_space_char(s.last()));
        lemma_trim_end_at(s.drop_last(), b);
        assert(s.drop_last().subrange(0, b) =~= s.subrange(0, b));
    }
}

/// The line with whitespace removed from both ends, as a fresh string.
pub fn trimmed(line: &str) -> (r: String)
    ensures
        r@ == spec_trim(line@),
{
    let n = line.unicode_len();
    let mut a: usize = 0;
    while a < n && is_space(line.get_char(a))
        invariant
            0 <= a <= n,
            n == line@.len(),
            forall|k: int| 0 <= k < a ==> is_space_char(line@[k]),
        decreases n - a,
    {
        a += 1;
    }
    proof {
        lemma_trim_start_at(line@, a as int);
    }
    if a == n {
        proof {
            assert(spec_trim_start(line@) =~= Seq::<char>::empty());
        }
        return String::new();
    }
    let mut b: usize = n;
    while b > a && is_space(line.get_char(b - 1))
        invariant
            a <= b <= n,
            n == line@.len(),
            forall|k: int| b <= k < n ==> is_space_char(line@[k]),
        decreases b,
    {
        b -= 1;
    }
    proof {
        if b == a {
            assert(is_space_char(line@[a as int]));
            assert(false);
        }
        let t = line@.subrange(a as int, n as int);
        lemma_trim_end_at(t, b - a);
        assert(t.subrange(0, b - a) =~= line@.subrange(a as int, b as int));
    }
    line.substring_char(a, b).to_owned()
}

/// `s` split on newline characters, exactly as splitting on `'\n'` does:
/// the empty text yields one empty line, and every newline character closes
/// the line before it.
pub open spec fn spec_lines(s: Seq<char>) -> Seq<Seq<char>>
    decreases s.len(),
{
    if s.len() == 0 {
        seq![Seq::<char>::empty()]
    } else if s[0] == '\n' {
        seq![Seq::<char>::empty()] + spec_lines(s.drop_first())
    } else {
        let rest = spec_lines(s.drop_first());
        seq![seq![s[0]] + rest[0]] + rest.drop_first()
    }
}

/// Splitting always yields at least one line.
pub proof fn lemma_lines_nonempty(s: Seq<char>)
    ensures
        spec_lines(s).len() >= 1,
    decreases s.len(),
{
    if s.len() > 0 {
        lemma_lines_nonempty(s.drop_first());
    }
}

/// A text without newlines is a single line.
pub proof fn lemma_lines_no_newline(s: Seq<char>)
    requires
        forall|k: int| 0 <= k < s.len() ==> s[k] != '\n',
    ensures
        spec_lines(s) == seq![s],
    decreases s.len(),
{
    if s.len() == 0 {
        assert(s =~= Seq::<char>::empty());
        assert(spec_lines(s) =~~= seq![s]);
    } else {
        lemma_lines_no_newline(s.drop_first());
        let rest = spec_lines(s.drop_first());
        assert(rest == seq![s.drop_first()]);
        assert(seq![s[0]] + s.drop_first() =~= s);
        assert(rest.drop_first() =~= Seq::<Seq<char>>::empty());
        assert(spec_lines(s) =~~= seq![s]);
    }
}

/// Splitting at the first newline: a newline-free prefix `x` followed by a
/// newline contributes the line `x`, and the rest is split on its own.
pub proof fn lemma_lines_split(x: Seq<char>, y: Seq<char>)
    requires
        forall|k: int| 0 <= k < x.len() ==> x[k] != '\n',
    ensures
        spec_lines(x + seq!['\n'] + y) == seq![x] + spec_lines(y),
    decreases x.len(),
{
    let s = x + seq!['\n'] + y;
    if x.len() == 0 {
        assert(s[0] == '\n');
        assert(s.drop_first() =~= y);
        assert(x =~= Seq::<char>::empty());
        assert(spec_lines(s) =~~= seq![x] + spec_lines(y));
    } else {
        assert(s[0] == x[0]);
        assert(s[0] != '\n');
        lemma_lines_split(x.drop_first(), y);
        assert(s.drop_first() =~= x.drop_first() + seq!['\n'] + y);
        let rest = spec_lines(s.drop_first());
        assert(rest == seq![x.drop_first()] + spec_lines(y));
        lemma_lines_nonempty(y);
        assert(rest[0] == x.drop_first());
        assert(seq![s[0]] + rest[0] =~= x);
        assert(rest.drop_first() =~= spec_lines(y));
        assert(spec_lines(s) =~~= seq![x] + spec_lines(y));
    }
}

/// Lexicographic order on character sequences, by code point; the order in
/// which passwords and volume paths are sorted.
pub open spec fn lex_le(a: Seq<char>, b: Seq<char>) -> bool
    decreases a.len(),
{
    if a.len() == 0 {
        true
    } else if b.len() == 0 {
        false
    } else if a[0] == b[0] {
        lex_le(a.drop_first(), b.drop_first())
    } else {
        (a[0] as int) < (b[0] as int)
    }
}

/// The order is reflexive.
pub proof fn lemma_lex_le_reflexive(a: Seq<char>)
    ensures
        lex_le(a, a),
    decreases a.len(),
{
    if a.len() > 0 {
        lemma_lex_le_reflexive(a.drop_first());
    }
}

/// The order is total: any two sequences compare one way or the other.
pub proof fn lemma_lex_le_total(a: Seq<char>, b: Seq<char>)
    ensures
        lex_le(a, b) || lex_le(b, a),
    decreases a.len(),
{
    if a.len() > 0 && b.len() > 0 && a[0] == b[0] {
        lemma_lex_le_total(a.drop_first(), b.drop_first());
    } else if a.len() > 0 && b.len() > 0 {
        assert((a[0] as int) != (b[0] as int));
    }
}

/// The order is transitive.
pub proof fn lemma_lex_le_transitive(a: Seq<char>, b: Seq<char>, c: Seq<char>)
    requires
        lex_le(a, b),
        lex_le(b, c),
    ensures
        lex_le(a, c),
    decreases a.len(),
{
    if a.len() > 0 && b.len() > 0 && c.len() > 0 && a[0] == b[0] && b[0] == c[0] {
        lemma_lex_le_transitive(a.drop_first(), b.drop_first(), c.drop_first());
    }
}

/// The order is antisymmetric: sequences that compare both ways are equal.
pub proof fn lemma_lex_le_antisymmetric(a: Seq<char>, b: Seq<char>)
    requires
        lex_le(a, b),
        lex_le(b, a),
    ensures
        a == b,
    decreases a.len(),
{
    if a.len() > 0 && b.len() > 0 && a[0] == b[0] {
        lemma_lex_le_antisymmetric(a.drop_first(), b.drop_first());
        assert(a =~= seq![a[0]] + a.drop_first());
        assert(b =~= seq![b[0]] + b.drop_first());
    } else {
        assert(a.len() == 0 && b.len() == 0);
        assert(a =~= b);
    }
}

/// Runtime comparison deciding [`lex_le`] on the views of two strings.
pub fn str_le(a: &str, b: &str) -> (r: bool)
    ensures
        r == lex_le(a@, b@),
{
    let an = a.unicode_len();
    let bn = b.unicode_len();
    let mut i: usize = 0;
    proof {
        assert(a@.subrange(0, an as int) =~= a@);
        assert(b@.subrange(0, bn as int) =~= b@);
    }
    loop
        invariant
            0 <= i <= an,
            i <= bn,
            an == a@.len(),
            bn == b@.len(),
            lex_le(a@, b@) == lex_le(
                a@.subrange(i as int, an as int),
                b@.subrange(i as int, bn as int),
            ),
        decreases an - i,
    {
        if i >= an {
            return true;
        }
        if i >= bn {
            return false;
        }
        let ca = a.get_char(i);
        let cb = b.get_char(i);
        if ca == cb {
            proof {
                let sa = a@.subrange(i as int, an as int);
                let sb = b@.subrange(i as int, bn as int);
                assert(sa.drop_first() =~= a@.subrange(i + 1, an as int));
                assert(sb.drop_first() =~= b@.subrange(i + 1, bn as int));
            }
            i += 1;
        } else {
            return (ca as u32) < (cb as u32);
        }
    }
}

/// The lexicographic order as a relation value, for vstd's ordering and
/// sortedness predicates.
pub open spec fn lex_leq() -> spec_fn(Seq<char>, Seq<char>) -> bool {
    |x: Seq<char>, y: Seq<char>| lex_le(x, y)
}

/// The lexicographic order is a total ordering: reflexive, antisymmetric,
/// transitive and strongly connected.
pub proof fn lemma_lex_total_ordering()
    ensures
        vstd::relations::total_ordering(lex_leq()),
{
    let r = lex_leq();
    assert forall|x: Seq<char>| #[trigger] r(x, x) by {
        lemma_lex_le_reflexive(x);
    }
    assert forall|x: Seq<char>, y: Seq<char>| #[trigger] r(x, y) && #[trigger] r(y, x)
        implies x == y by {
        lemma_lex_le_antisymmetric(x, y);
    }
    assert forall|x: Seq<char>, y: Seq<char>, z: Seq<char>|
        #[trigger] r(x, y) && #[trigger] r(y, z) implies r(x, z) by {
        lemma_lex_le_transitive(x, y, z);
    }
    assert forall|x: Seq<char>, y: Seq<char>| #[trigger] r(x, y) || #[trigger] r(y, x) by {
        lemma_lex_le_total(x, y);
    }
}

/// Places `x` into the sorted vector `v`, keeping it sorted; the contents
/// afterwards are the old contents plus `x`.
pub fn insert_string_sorted(v: &mut Vec<String>, x: String)
    requires
        vstd::relations::sorted_by(seq_views(old(v)@), lex_leq()),
    ensures
        vstd::relations::sorted_by(seq_views(final(v)@), lex_leq()),
        seq_views(final(v)@).to_multiset() == seq_views(old(v)@).to_multiset().insert(x@),
        final(v)@.len() == old(v)@.len() + 1,
{
    broadcast use vstd::seq_lib::group_to_multiset_ensures;

    let n = v.len();
    let mut idx: usize = 0;
    while idx < n && str_le(v[idx].as_str(), x.as_str())
        invariant
            0 <= idx <= n,
            n == v@.len(),
            forall|k: int| 0 <= k < idx ==> lex_le(#[trigger] seq_views(v@)[k], x@),
        decreases n - idx,
    {
        idx += 1;
    }
    proof {
        if idx < n {
            assert(!lex_le(v@[idx as int]@, x@));
            lemma_lex_le_total(v@[idx as int]@, x@);
            assert(lex_le(x@, v@[idx as int]@));
        }
    }
    let ghost old_views = seq_views(v@);
    v.insert(idx, x);
    proof {
        let vs = seq_views(v@);
        assert(vs =~= old_views.insert(idx as int, x@));
        old_views.insert_ensures(idx as int, x@);
        let r = lex_leq();
        assert forall|i: int, j: int| 0 <= i < j < vs.len() implies #[trigger] r(vs[i], vs[j]) by {
            if j < idx {
                assert(r(old_views[i], old_views[j]));
            } else if i < idx && j == idx {
                assert(vs[j] == x@);
                assert(lex_le(old_views[i], x@));
            } else if i < idx && j > idx {
                assert(r(old_views[i], old_views[j - 1]));
            } else if i == idx {
                // vs[i] is x and vs[j] is the old element at j - 1
                assert(vs[i] == x@);
                assert(vs[j] == old_views[j - 1]);
                assert(lex_le(x@, old_views[idx as int]));
                if j - 1 > idx {
                    assert(r(old_views[idx as int], old_views[j - 1]));
                    lemma_lex_le_transitive(x@, old_views[idx as int], old_views[j - 1]);
                }
            } else {
                assert(r(old_views[i - 1], old_views[j - 1]));
            }
        }
    }
}

/// Sorts the strings into lexicographic order; the result holds exactly the
/// given strings, as a multiset.
pub fn sort_strings(v: &Vec<String>) -> (r: Vec<String>)
    ensures
        vstd::relations::sorted_by(seq_views(r@), lex_leq()),
        seq_views(r@).to_multiset() == seq_views(v@).to_multiset(),
        r@.len() == v@.len(),
{
    broadcast use vstd::seq_lib::group_to_multiset_ensures;

    let mut out: Vec<String> = Vec::new();
    let mut i: usize = 0;
    proof {
        assert(seq_views(out@) =~= Seq::<Seq<char>>::empty());
        assert(seq_views(v@).subrange(0, 0) =~= Seq::<Seq<char>>::empty());
    }
    while i < v.len()
        invariant
            0 <= i <= v@.len(),
            vstd::relations::sorted_by(seq_views(out@), lex_leq()),
            seq_views(out@).to_multiset() == seq_views(v@).subrange(0, i as int).to_multiset(),
            out@.len() == i,
        decreases v@.len() - i,
    {
        let x = v[i].clone();
        proof {
            assert(x@ == v@[i as int]@);
            assert(seq_views(v@).subrange(0, i + 1) =~= seq_views(v@).subrange(0, i as int).push(
                seq_views(v@)[i as int],
            ));
            vstd::seq_lib::to_multiset_build(
                seq_views(v@).subrange(0, i as int),
                seq_views(v@)[i as int],
            );
        }
        insert_string_sorted(&mut out, x);
        i += 1;
    }
    proof {
        assert(seq_views(v@).subrange(0, v@.len() as int) =~= seq_views(v@));
    }
    out
}


/// Whether no character of `x` is a newline.
pub open spec fn no_newline(x: Seq<char>) -> bool {
    forall|k: int| 0 <= k < x.len() ==> x[k] != '\n'
}

/// A nonempty trimmed-start value starts with a non-space character.
proof fn lemma_trim_start_first(s: Seq<char>)
    ensures
        spec_trim_start(s).len() > 0 ==> !is_space_char(spec_trim_start(s)[0]),
    decreases s.len(),
{
    if s.len() > 0 && is_space_char(s[0]) {
        lemma_trim_start_first(s.drop_first());
    }
}

/// A nonempty trimmed-end value ends with a non-space character.
proof fn lemma_trim_end_last(s: Seq<char>)
    ensures
        spec_trim_end(s).len() > 0 ==> !is_space_char(spec_trim_end(s).last()),
    decreases s.len(),
{
    if s.len() > 0 && is_space_char(s.last()) {
        lemma_trim_end_last(s.drop_last());
    }
}

/// Trimming the end keeps the first character.
proof fn lemma_trim_end_keeps_first(s: Seq<char>)
    ensures
        spec_trim_end(s).len() > 0 ==> spec_trim_end(s)[0] == s[0],
    decreases s.len(),
{
    if s.len() > 0 && is_space_char(s.last()) {
        lemma_trim_end_keeps_first(s.drop_last());
    }
}

/// Trimming an already-trimmed value changes nothing.
pub proof fn lemma_trim_idempotent(s: Seq<char>)
    ensures
        spec_trim(spec_trim(s)) == spec_trim(s),
{
    let ts = spec_trim_start(s);
    let t = spec_trim(s);
    if t.len() == 0 {
        assert(spec_trim_start(t).len() == 0);
        assert(spec_trim(t) =~= t);
    } else {
        lemma_trim_start_first(s);
        lemma_trim_end_last(ts);
        lemma_trim_end_keeps_first(ts);
        assert(ts.len() > 0);
        assert(t[0] == ts[0]);
        assert(!is_space_char(t[0]));
        assert(spec_trim_start(t) == t);
        assert(!is_space_char(t.last()));
        assert(spec_trim_end(t) == t);
    }
}

/// Trimming brings in no character the input did not have; in particular a
/// newline-free line stays newline-free.
pub proof fn lemma_trim_no_newline(s: Seq<char>)
    requires
        no_newline(s),
    ensures
        no_newline(spec_trim(s)),
{
    lemma_trim_start_no_newline(s);
    lemma_trim_end_no_newline(spec_trim_start(s));
}

proof fn lemma_trim_start_no_newline(s: Seq<char>)
    requires
        no_newline(s),
    ensures
        no_newline(spec_trim_start(s)),
    decreases s.len(),
{
    if s.len() > 0 && is_space_char(s[0]) {
        assert(no_newline(s.drop_first())) by {
            assert forall|k: int| 0 <= k < s.drop_first().len() implies s.drop_first()[k]
                != '\n' by {
                assert(s[k + 1] != '\n');
            }
        }
        lemma_trim_start_no_newline(s.drop_first());
    }
}

proof fn lemma_trim_end_no_newline(s: Seq<char>)
    requires
        no_newline(s),
    ensures
        no_newline(spec_trim_end(s)),
    decreases s.len(),
{
    if s.len() > 0 && is_space_char(s.last()) {
        assert(no_newline(s.drop_last()));
        lemma_trim_end_no_newline(s.drop_last());
    }
}

/// Every line that splitting yields is newline-free.
pub proof fn lemma_lines_elements(s: Seq<char>)
    ensures
        forall|i: int|
            0 <= i < spec_lines(s).len() ==> no_newline(#[trigger] spec_lines(s)[i]),
    decreases s.len(),
{
    let ls = spec_lines(s);
    if s.len() == 0 {
        assert forall|i: int| 0 <= i < ls.len() implies no_newline(ls[i]) by {
            assert(ls[i] =~= Seq::<char>::empty());
        }
    } else if s[0] == '\n' {
        lemma_lines_elements(s.drop_first());
        let rest = spec_lines(s.drop_first());
        assert forall|i: int| 0 <= i < ls.len() implies no_newline(ls[i]) by {
            if i == 0 {
                assert(ls[0] =~= Seq::<char>::empty());
            } else {
                assert(ls[i] == rest[i - 1]);
            }
        }
    } else {
        lemma_lines_elements(s.drop_first());
        let rest = spec_lines(s.drop_first());
        lemma_lines_nonempty(s.drop_first());
        assert forall|i: int| 0 <= i < ls.len() implies no_newline(ls[i]) by {
            if i == 0 {
                assert(no_newline(rest[0]));
                let head = seq![s[0]] + rest[0];
                assert(ls[0] == head);
                assert forall|k: int| 0 <= k < head.len() implies head[k] != '\n' by {
                    if k > 0 {
                        assert(head[k] == rest[0][k - 1]);
                    }
                }
            } else {
                assert(ls[i] == rest[i]);
            }
        }
    }
}

} // verus!
