//! The password dictionary: parsing a dictionary text into the ordered list
//! of candidate passwords, and normalizing such a text (sorting its lines and
//! dropping duplicates) for housekeeping.

use vstd::prelude::*;
use vstd::string::StrSliceExecFns;
use crate::text::{
    lemma_lex_le_antisymmetric, lemma_lex_total_ordering, lemma_lines_elements,
    lemma_lines_no_newline, lemma_lines_split, lemma_trim_idempotent, lemma_trim_no_newline,
    lex_le, lex_leq, no_newline, seq_views, sort_strings, spec_lines, spec_trim, trimmed,
};

verus! {

/// The lines that the dictionary keeps from a split text: each line trimmed,
/// and the ones that trim to nothing dropped, in order.
pub open spec fn spec_kept_lines(ls: Seq<Seq<char>>) -> Seq<Seq<char>>
    decreases ls.len(),
{
    if ls.len() == 0 {
        Seq::empty()
    } else {
        let head = spec_trim(ls[0]);
        (if head.len() > 0 {
            seq![head]
        } else {
            Seq::empty()
        }) + spec_kept_lines(ls.drop_first())
    }
}

/// The candidate passwords of a dictionary text: the text split on newlines,
/// every line trimmed, empty lines dropped, order preserved.
pub open spec fn spec_password_lines(s: Seq<char>) -> Seq<Seq<char>> {
    spec_kept_lines(spec_lines(s))
}

/// Parses a dictionary text into the ordered candidate list: one candidate
/// per line, surrounding whitespace trimmed, empty lines discarded. Tolerates
/// a trailing newline and mixed line endings (a carriage return before the
/// newline is trimmed away).
pub fn get_password(contents: &str) -> (r: Vec<String>)
    ensures
        seq_views(r@) == spec_password_lines(contents@),
{
    let n = contents.unicode_len();
    let mut out: Vec<String> = Vec::new();
    let mut start: usize = 0;
    let mut i: usize = 0;
    proof {
        assert(contents@.subrange(0, n as int) =~= contents@);
        assert(seq_views(out@) =~= Seq::<Seq<char>>::empty());
    }
    loop
        invariant
            0 <= start <= i <= n,
            n == contents@.len(),
            forall|k: int| start <= k < i ==> contents@[k] != '\n',
            spec_password_lines(contents@) == seq_views(out@) + spec_kept_lines(
                spec_lines(contents@.subrange(start as int, n as int)),
            ),
        decreases n - i,
    {
        let ghost prev_views = seq_views(out@);
        if i == n {
            let line = contents.substring_char(start, i);
            let t = trimmed(line);
            proof {
                let x = contents@.subrange(start as int, i as int);
                lemma_lines_no_newline(x);
                let ls = spec_lines(x);
                assert(ls == seq![x]);
                assert(ls.len() == 1 && ls[0] == x);
                assert(ls.drop_first() =~= Seq::<Seq<char>>::empty());
                assert(spec_kept_lines(ls.drop_first()) =~= Seq::<Seq<char>>::empty());
                assert(spec_kept_lines(ls) =~= (if spec_trim(x).len() > 0 {
                    seq![spec_trim(x)]
                } else {
                    Seq::<Seq<char>>::empty()
                }));
            }
            if !t.as_str().is_empty() {
                let ghost tv = t@;
                out.push(t);
                proof {
                    assert(seq_views(out@) =~= prev_views + seq![tv]);
                }
            }
            proof {
                assert(spec_password_lines(contents@) =~= seq_views(out@));
            }
            return out;
        }
        let c = contents.get_char(i);
        if c == '\n' {
            let line = contents.substring_char(start, i);
            let t = trimmed(line);
            proof {
                let x = contents@.subrange(start as int, i as int);
                let y = contents@.subrange(i + 1, n as int);
                assert(contents@.subrange(start as int, n as int) =~= x + seq!['\n'] + y);
                lemma_lines_split(x, y);
                let ls = seq![x] + spec_lines(y);
                assert(ls.drop_first() =~= spec_lines(y));
                assert(ls[0] == x);
                assert(spec_kept_lines(ls) =~= (if spec_trim(x).len() > 0 {
                    seq![spec_trim(x)]
                } else {
                    Seq::<Seq<char>>::empty()
                }) + spec_kept_lines(spec_lines(y)));
            }
            if !t.as_str().is_empty() {
                let ghost tv = t@;
                out.push(t);
                proof {
                    assert(seq_views(out@) =~= prev_views + seq![tv]);
                }
            }
            start = i + 1;
            proof {
                assert(spec_password_lines(contents@) == seq_views(out@) + spec_kept_lines(
                    spec_lines(contents@.subrange(start as int, n as int)),
                ));
            }
        }
        i += 1;
    }
}

/// The lines left when every line equal to its predecessor is dropped,
/// starting after a kept line `prev`.
pub open spec fn spec_dedup_from(ls: Seq<Seq<char>>, prev: Seq<char>) -> Seq<Seq<char>>
    decreases ls.len(),
{
    if ls.len() == 0 {
        Seq::empty()
    } else if ls[0] == prev {
        spec_dedup_from(ls.drop_first(), prev)
    } else {
        seq![ls[0]] + spec_dedup_from(ls.drop_first(), ls[0])
    }
}

/// Adjacent duplicates dropped: the first line of every run is kept.
pub open spec fn spec_dedup(ls: Seq<Seq<char>>) -> Seq<Seq<char>> {
    if ls.len() == 0 {
        Seq::empty()
    } else {
        seq![ls[0]] + spec_dedup_from(ls.drop_first(), ls[0])
    }
}

/// Drops adjacent duplicate strings, keeping the first of each run.
pub fn dedup_adjacent(v: &Vec<String>) -> (r: Vec<String>)
    ensures
        seq_views(r@) == spec_dedup(seq_views(v@)),
{
    let mut out: Vec<String> = Vec::new();
    if v.len() == 0 {
        proof {
            assert(seq_views(out@) =~= Seq::<Seq<char>>::empty());
            assert(seq_views(v@) =~= Seq::<Seq<char>>::empty());
        }
        return out;
    }
    let ghost sv = seq_views(v@);
    let n = v.len();
    out.push(v[0].clone());
    let mut i: usize = 1;
    proof {
        assert(seq_views(out@) =~= seq![sv[0]]);
        assert(sv.subrange(1, n as int) =~= sv.drop_first());
    }
    while i < n
        invariant
            1 <= i <= n,
            n == v@.len(),
            sv == seq_views(v@),
            out@.len() >= 1,
            spec_dedup(sv) == seq_views(out@) + spec_dedup_from(
                sv.subrange(i as int, n as int),
                sv[i - 1],
            ),
        decreases n - i,
    {
        let ghost prev_views = seq_views(out@);
        let equal_to_last = v[i] == v[i - 1];
        proof {
            let tail = sv.subrange(i as int, n as int);
            assert(tail[0] == sv[i as int]);
            assert(tail.drop_first() =~= sv.subrange(i + 1, n as int));
        }
        if !equal_to_last {
            out.push(v[i].clone());
            proof {
                assert(seq_views(out@) =~= prev_views + seq![sv[i as int]]);
            }
        }
        i += 1;
    }
    proof {
        assert(sv.subrange(n as int, n as int) =~= Seq::<Seq<char>>::empty());
        assert(seq_views(out@) + Seq::<Seq<char>>::empty() =~= seq_views(out@));
    }
    out
}

/// The lines joined with single newlines between them; no trailing newline.
pub open spec fn spec_join_newline(ls: Seq<Seq<char>>) -> Seq<char>
    decreases ls.len(),
{
    if ls.len() == 0 {
        Seq::empty()
    } else if ls.len() == 1 {
        ls[0]
    } else {
        ls[0] + seq!['\n'] + spec_join_newline(ls.drop_first())
    }
}

/// Joining one more line appends a newline and the line (or is the line
/// itself when nothing came before).
proof fn lemma_join_push(ls: Seq<Seq<char>>, x: Seq<char>)
    ensures
        spec_join_newline(ls.push(x)) == (if ls.len() == 0 {
            x
        } else {
            spec_join_newline(ls) + seq!['\n'] + x
        }),
    decreases ls.len(),
{
    let p = ls.push(x);
    if ls.len() == 0 {
        assert(p.len() == 1);
        assert(p[0] == x);
    } else {
        assert(p[0] == ls[0]);
        assert(p.drop_first() =~= ls.drop_first().push(x));
        lemma_join_push(ls.drop_first(), x);
        if ls.len() == 1 {
            assert(spec_join_newline(p) =~= ls[0] + seq!['\n'] + x);
            assert(spec_join_newline(ls) == ls[0]);
        } else {
            assert(spec_join_newline(p) =~= spec_join_newline(ls) + seq!['\n'] + x);
        }
    }
}

/// Joins the strings with newlines between them.
pub fn join_lines(v: &Vec<String>) -> (r: String)
    ensures
        r@ == spec_join_newline(seq_views(v@)),
{
    let ghost sv = seq_views(v@);
    let mut r = String::new();
    let mut i: usize = 0;
    proof {
        assert(sv.subrange(0, 0) =~= Seq::<Seq<char>>::empty());
    }
    while i < v.len()
        invariant
            0 <= i <= v@.len(),
            sv == seq_views(v@),
            r@ == spec_join_newline(sv.subrange(0, i as int)),
        decreases v@.len() - i,
    {
        if i > 0 {
            r.append("\n");
            proof {
                reveal_strlit("\n");
            }
        }
        r.append(v[i].as_str());
        proof {
            let pre = sv.subrange(0, i as int);
            assert(sv.subrange(0, i + 1) =~= pre.push(sv[i as int]));
            lemma_join_push(pre, sv[i as int]);
            if i > 0 {
                assert(r@ =~= spec_join_newline(pre) + seq!['\n'] + sv[i as int]);
            }
        }
        i += 1;
    }
    proof {
        assert(sv.subrange(0, v@.len() as int) =~= sv);
    }
    r
}

/// A dictionary text, normalized: its candidate lines in lexicographic
/// order with duplicates dropped.
pub open spec fn spec_normalized_passwords(s: Seq<char>) -> Seq<Seq<char>> {
    spec_dedup(spec_password_lines(s).sort_by(lex_leq()))
}

/// Normalizes a dictionary text for housekeeping, as the caller writes it
/// back: the candidate lines sorted lexicographically, duplicates dropped,
/// joined with newlines.
pub fn format_password_file(contents: &str) -> (r: String)
    ensures
        r@ == spec_join_newline(spec_normalized_passwords(contents@)),
{
    let parsed = get_password(contents);
    let sorted = sort_strings(&parsed);
    proof {
        let lines = spec_password_lines(contents@);
        lemma_lex_total_ordering();
        lines.lemma_sort_by_ensures(lex_leq());
        vstd::seq_lib::lemma_sorted_unique(
            seq_views(sorted@),
            lines.sort_by(lex_leq()),
            lex_leq(),
        );
        assert(seq_views(sorted@) == lines.sort_by(lex_leq()));
    }
    let unique = dedup_adjacent(&sorted);
    join_lines(&unique)
}

/// Membership in a nonempty sequence is membership in its first element or
/// in the rest.
proof fn lemma_contains_drop_first<A>(s: Seq<A>)
    requires
        s.len() > 0,
    ensures
        forall|x: A| #[trigger] s.contains(x) <==> (x == s[0] || s.drop_first().contains(x)),
{
    assert forall|x: A| #[trigger] s.contains(x) implies (x == s[0]
        || s.drop_first().contains(x)) by {
        let i = choose|i: int| 0 <= i < s.len() && s[i] == x;
        if i > 0 {
            assert(s.drop_first()[i - 1] == x);
        }
    }
    assert forall|x: A| (x == s[0] || s.drop_first().contains(x)) implies #[trigger] s.contains(
        x,
    ) by {
        if x == s[0] {
            assert(s[0] == x);
        } else {
            let i = choose|i: int| 0 <= i < s.drop_first().len() && s.drop_first()[i] == x;
            assert(s[i + 1] == x);
        }
    }
}

/// What dropping duplicates after a kept line `prev` leaves of a sorted
/// tail bounded below by `prev`: still sorted, free of duplicates, and
/// holding exactly the lines other than `prev`.
proof fn lemma_dedup_from_props(ls: Seq<Seq<char>>, prev: Seq<char>)
    requires
        vstd::relations::sorted_by(ls, lex_leq()),
        forall|k: int| 0 <= k < ls.len() ==> lex_le(prev, #[trigger] ls[k]),
    ensures
        vstd::relations::sorted_by(spec_dedup_from(ls, prev), lex_leq()),
        spec_dedup_from(ls, prev).no_duplicates(),
        forall|x: Seq<char>| #[trigger] spec_dedup_from(ls, prev).contains(x) <==> (ls.contains(x)
            && x != prev),
    decreases ls.len(),
{
    let r = lex_leq();
    let d = spec_dedup_from(ls, prev);
    if ls.len() == 0 {
        assert(forall|x: Seq<char>| !(#[trigger] d.contains(x)));
        assert(forall|x: Seq<char>| !(#[trigger] ls.contains(x)));
    } else {
        let tail = ls.drop_first();
        lemma_contains_drop_first(ls);
        assert(vstd::relations::sorted_by(tail, lex_leq())) by {
            assert forall|i: int, j: int| 0 <= i < j < tail.len() implies #[trigger] r(
                tail[i],
                tail[j],
            ) by {
                assert(r(ls[i + 1], ls[j + 1]));
            }
        }
        if ls[0] == prev {
            assert forall|k: int| 0 <= k < tail.len() implies lex_le(
                prev,
                #[trigger] tail[k],
            ) by {
                assert(lex_le(prev, ls[k + 1]));
            }
            lemma_dedup_from_props(tail, prev);
        } else {
            assert(lex_le(prev, ls[0]));
            assert forall|k: int| 0 <= k < tail.len() implies lex_le(
                ls[0],
                #[trigger] tail[k],
            ) by {
                assert(r(ls[0], ls[k + 1]));
            }
            lemma_dedup_from_props(tail, ls[0]);
            let drest = spec_dedup_from(tail, ls[0]);
            assert(d == seq![ls[0]] + drest);
            assert(d.len() > 0 && d[0] == ls[0]);
            assert(d.drop_first() =~= drest);
            lemma_contains_drop_first(d);
            // anything kept from the tail sits at or above the head, and is
            // never the head itself
            assert forall|x: Seq<char>| #[trigger] drest.contains(x) implies lex_le(ls[0], x)
                && x != ls[0] && x != prev by {
                assert(tail.contains(x));
                let i = choose|i: int| 0 <= i < tail.len() && tail[i] == x;
                assert(lex_le(ls[0], tail[i]));
                if x == prev {
                    lemma_lex_le_antisymmetric(prev, ls[0]);
                }
            }
            assert(vstd::relations::sorted_by(d, r)) by {
                assert forall|i: int, j: int| 0 <= i < j < d.len() implies #[trigger] r(
                    d[i],
                    d[j],
                ) by {
                    if i == 0 {
                        assert(drest.contains(drest[j - 1]));
                    } else {
                        assert(r(drest[i - 1], drest[j - 1]));
                    }
                }
            }
            assert(d.no_duplicates()) by {
                assert forall|i: int, j: int|
                    0 <= i < d.len() && 0 <= j < d.len() && i != j implies d[i] != d[j] by {
                    if i == 0 && j > 0 {
                        assert(drest.contains(drest[j - 1]));
                    } else if j == 0 && i > 0 {
                        assert(drest.contains(drest[i - 1]));
                    }
                }
            }
            assert forall|x: Seq<char>| #[trigger] d.contains(x) implies (ls.contains(x) && x
                != prev) by {
                if x != ls[0] {
                    assert(drest.contains(x));
                    assert(tail.contains(x));
                }
            }
            assert forall|x: Seq<char>| ls.contains(x) && x != prev implies #[trigger] d.contains(
                x,
            ) by {
                if x != ls[0] {
                    assert(tail.contains(x));
                    assert(drest.contains(x));
                }
            }
        }
    }
}

/// What dropping adjacent duplicates leaves of a sorted list: still sorted,
/// free of duplicates, and holding exactly the same lines.
proof fn lemma_dedup_props(ls: Seq<Seq<char>>)
    requires
        vstd::relations::sorted_by(ls, lex_leq()),
    ensures
        vstd::relations::sorted_by(spec_dedup(ls), lex_leq()),
        spec_dedup(ls).no_duplicates(),
        forall|x: Seq<char>| #[trigger] spec_dedup(ls).contains(x) <==> ls.contains(x),
{
    let r = lex_leq();
    let d = spec_dedup(ls);
    if ls.len() == 0 {
        assert(forall|x: Seq<char>| !(#[trigger] d.contains(x)));
        assert(forall|x: Seq<char>| !(#[trigger] ls.contains(x)));
    } else {
        let tail = ls.drop_first();
        lemma_contains_drop_first(ls);
        assert(vstd::relations::sorted_by(tail, lex_leq())) by {
            assert forall|i: int, j: int| 0 <= i < j < tail.len() implies #[trigger] r(
                tail[i],
                tail[j],
            ) by {
                assert(r(ls[i + 1], ls[j + 1]));
            }
        }
        assert forall|k: int| 0 <= k < tail.len() implies lex_le(ls[0], #[trigger] tail[k]) by {
            assert(r(ls[0], ls[k + 1]));
        }
        lemma_dedup_from_props(tail, ls[0]);
        let drest = spec_dedup_from(tail, ls[0]);
        assert(d == seq![ls[0]] + drest);
        assert(d.len() > 0 && d[0] == ls[0]);
        assert(d.drop_first() =~= drest);
        lemma_contains_drop_first(d);
        assert forall|x: Seq<char>| #[trigger] drest.contains(x) implies lex_le(ls[0], x) && x
            != ls[0] by {
            assert(tail.contains(x));
            let i = choose|i: int| 0 <= i < tail.len() && tail[i] == x;
            assert(lex_le(ls[0], tail[i]));
        }
        assert(vstd::relations::sorted_by(d, r)) by {
            assert forall|i: int, j: int| 0 <= i < j < d.len() implies #[trigger] r(
                d[i],
                d[j],
            ) by {
                if i == 0 {
                    assert(drest.contains(drest[j - 1]));
                } else {
                    assert(r(drest[i - 1], drest[j - 1]));
                }
            }
        }
        assert(d.no_duplicates()) by {
            assert forall|i: int, j: int|
                0 <= i < d.len() && 0 <= j < d.len() && i != j implies d[i] != d[j] by {
                if i == 0 && j > 0 {
                    assert(drest.contains(drest[j - 1]));
                } else if j == 0 && i > 0 {
                    assert(drest.contains(drest[i - 1]));
                }
            }
        }
    }
}

/// What normalizing promises of any dictionary text: the normalized lines
/// are in ascending lexicographic order, no line repeats, and together they
/// are exactly the candidate set the text parsed to — nothing dropped
/// beyond duplicates, nothing invented.
pub proof fn lemma_normalized_passwords(s: Seq<char>)
    ensures
        vstd::relations::sorted_by(spec_normalized_passwords(s), lex_leq()),
        spec_normalized_passwords(s).no_duplicates(),
        spec_normalized_passwords(s).to_set() == spec_password_lines(s).to_set(),
{
    broadcast use vstd::seq_lib::group_to_multiset_ensures;

    lemma_lex_total_ordering();
    let lines = spec_password_lines(s);
    lines.lemma_sort_by_ensures(lex_leq());
    let sorted = lines.sort_by(lex_leq());
    lemma_dedup_props(sorted);
    assert forall|x: Seq<char>| #[trigger] sorted.contains(x) <==> lines.contains(x) by {
        vstd::seq_lib::to_multiset_contains(sorted, x);
        vstd::seq_lib::to_multiset_contains(lines, x);
        assert(sorted.to_multiset() == lines.to_multiset());
    }
    assert(spec_normalized_passwords(s).to_set() =~= lines.to_set());
}


/// A line as the normalizer emits it: nonempty, already trimmed, and free
/// of newlines, so that writing it out and reading it back is harmless.
pub open spec fn is_clean_line(x: Seq<char>) -> bool {
    x.len() > 0 && spec_trim(x) == x && no_newline(x)
}

/// Every line the dictionary keeps is clean: trimming made it so, and the
/// split never leaves a newline inside a line.
proof fn lemma_kept_lines_clean(ls: Seq<Seq<char>>)
    requires
        forall|i: int| 0 <= i < ls.len() ==> no_newline(#[trigger] ls[i]),
    ensures
        forall|i: int|
            0 <= i < spec_kept_lines(ls).len() ==> is_clean_line(#[trigger] spec_kept_lines(ls)[i]),
    decreases ls.len(),
{
    if ls.len() > 0 {
        let tail = ls.drop_first();
        assert forall|i: int| 0 <= i < tail.len() implies no_newline(#[trigger] tail[i]) by {
            assert(no_newline(ls[i + 1]));
        }
        lemma_kept_lines_clean(tail);
        let head = spec_trim(ls[0]);
        let kept = spec_kept_lines(ls);
        let rest = spec_kept_lines(tail);
        lemma_trim_idempotent(ls[0]);
        lemma_trim_no_newline(ls[0]);
        assert forall|i: int| 0 <= i < kept.len() implies is_clean_line(kept[i]) by {
            if head.len() > 0 {
                if i == 0 {
                    assert(kept[0] == head);
                } else {
                    assert(kept[i] == rest[i - 1]);
                }
            } else {
                assert(kept[i] == rest[i]);
            }
        }
    }
}

/// Splitting a newline-joined list of newline-free lines gives the list
/// back.
proof fn lemma_lines_of_join(ls: Seq<Seq<char>>)
    requires
        ls.len() > 0,
        forall|i: int| 0 <= i < ls.len() ==> no_newline(#[trigger] ls[i]),
    ensures
        spec_lines(spec_join_newline(ls)) == ls,
    decreases ls.len(),
{
    if ls.len() == 1 {
        lemma_lines_no_newline(ls[0]);
        assert(spec_lines(spec_join_newline(ls)) =~~= ls);
    } else {
        let tail = ls.drop_first();
        assert forall|i: int| 0 <= i < tail.len() implies no_newline(#[trigger] tail[i]) by {
            assert(no_newline(ls[i + 1]));
        }
        lemma_lines_of_join(tail);
        lemma_lines_split(ls[0], spec_join_newline(tail));
        assert(spec_lines(spec_join_newline(ls)) =~~= seq![ls[0]] + tail);
        assert(seq![ls[0]] + tail =~~= ls);
    }
}

/// The dictionary keeps clean lines exactly as they are.
proof fn lemma_kept_lines_identity(ls: Seq<Seq<char>>)
    requires
        forall|i: int| 0 <= i < ls.len() ==> is_clean_line(#[trigger] ls[i]),
    ensures
        spec_kept_lines(ls) == ls,
    decreases ls.len(),
{
    if ls.len() > 0 {
        assert(is_clean_line(ls[0]));
        let tail = ls.drop_first();
        assert forall|i: int| 0 <= i < tail.len() implies is_clean_line(#[trigger] tail[i]) by {
            assert(is_clean_line(ls[i + 1]));
        }
        lemma_kept_lines_identity(tail);
        assert(spec_kept_lines(ls) =~~= seq![ls[0]] + tail);
        assert(seq![ls[0]] + tail =~~= ls);
    }
}

/// Normalizing is idempotent: the text the normalizer writes parses back to
/// exactly the normalized lines, so formatting an already-formatted
/// dictionary changes nothing.
pub proof fn lemma_format_round_trip(s: Seq<char>)
    ensures
        spec_password_lines(spec_join_newline(spec_normalized_passwords(s))) ==
            spec_normalized_passwords(s),
{
    broadcast use vstd::seq_lib::group_to_multiset_ensures;

    let lines = spec_password_lines(s);
    let norm = spec_normalized_passwords(s);
    // every candidate line is clean
    lemma_lines_elements(s);
    lemma_kept_lines_clean(spec_lines(s));
    // sorting and deduplicating keep only those same lines
    lemma_lex_total_ordering();
    lines.lemma_sort_by_ensures(lex_leq());
    let sorted = lines.sort_by(lex_leq());
    lemma_dedup_props(sorted);
    assert forall|i: int| 0 <= i < norm.len() implies is_clean_line(#[trigger] norm[i]) by {
        assert(norm.contains(norm[i]));
        assert(sorted.contains(norm[i]));
        vstd::seq_lib::to_multiset_contains(sorted, norm[i]);
        vstd::seq_lib::to_multiset_contains(lines, norm[i]);
        assert(lines.contains(norm[i]));
        let j = choose|j: int| 0 <= j < lines.len() && lines[j] == norm[i];
        assert(is_clean_line(lines[j]));
    }
    if norm.len() == 0 {
        assert(spec_join_newline(norm) =~= Seq::<char>::empty());
        let ls0 = spec_lines(Seq::<char>::empty());
        assert(ls0 == seq![Seq::<char>::empty()]);
        assert(spec_trim(Seq::<char>::empty()) =~= Seq::<char>::empty());
        assert(ls0.drop_first() =~= Seq::<Seq<char>>::empty());
        assert(spec_kept_lines(ls0.drop_first()) =~= Seq::<Seq<char>>::empty());
        assert(spec_kept_lines(ls0) =~= Seq::<Seq<char>>::empty());
        assert(norm =~~= Seq::<Seq<char>>::empty());
    } else {
        assert forall|i: int| 0 <= i < norm.len() implies no_newline(#[trigger] norm[i]) by {
            assert(is_clean_line(norm[i]));
        }
        lemma_lines_of_join(norm);
        lemma_kept_lines_identity(norm);
    }
}

} // verus!
