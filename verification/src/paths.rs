//! The library's path model. A path is a plain string; `'/'` and `'\\'` are
//! the separator characters. The file name is what follows the last
//! separator, the parent is what precedes it, and the stem is the file name
//! without its final `.`-extension (a leading dot alone does not start an
//! extension). Joining appends with `'/'`. A path is absolute when it starts
//! with a separator or names a drive (second character `':'`).

use vstd::prelude::*;
use vstd::string::StrSliceExecFns;

verus! {

/// The path separator characters.
pub open spec fn is_sep_char(c: char) -> bool {
    c == '/' || c == '\\'
}

/// Runtime test for [`is_sep_char`].
pub fn is_sep(c: char) -> (r: bool)
    ensures
        r == is_sep_char(c),
{
    c == '/' || c == '\\'
}

/// The index where the file name starts: just after the last separator, or
/// zero when the path has none.
pub open spec fn spec_name_start(p: Seq<char>) -> int
    decreases p.len(),
{
    if p.len() == 0 {
        0
    } else if is_sep_char(p.last()) {
        p.len() as int
    } else {
        spec_name_start(p.drop_last())
    }
}

/// The file name: everything after the last separator.
pub open spec fn spec_file_name(p: Seq<char>) -> Seq<char> {
    p.subrange(spec_name_start(p), p.len() as int)
}

/// The parent: everything before the last separator, empty when the path is
/// a bare file name.
pub open spec fn spec_parent(p: Seq<char>) -> Seq<char> {
    if spec_name_start(p) == 0 {
        Seq::empty()
    } else {
        p.subrange(0, spec_name_start(p) - 1)
    }
}

/// Characterizes [`spec_name_start`]: it is the unique index with only
/// non-separator characters after it and (unless zero) a separator before it.
proof fn lemma_name_start_at(p: Seq<char>, r: int)
    requires
        0 <= r <= p.len(),
        forall|k: int| r <= k < p.len() ==> !is_sep_char(p[k]),
        r > 0 ==> is_sep_char(p[r - 1]),
    ensures
        spec_name_start(p) == r,
    decreases p.len(),
{
    if p.len() == 0 {
    } else if is_sep_char(p.last()) {
        assert(r == p.len());
    } else {
        assert(r < p.len());
        lemma_name_start_at(p.drop_last(), r);
    }
}

/// Runtime computation of [`spec_name_start`].
pub fn name_start_index(p: &str) -> (r: usize)
    ensures
        r == spec_name_start(p@),
        r <= p@.len(),
{
    let n = p.unicode_len();
    let mut i = n;
    while i > 0 && !is_sep(p.get_char(i - 1))
        invariant
            0 <= i <= n,
            n == p@.len(),
            forall|k: int| i <= k < n ==> !is_sep_char(p@[k]),
        decreases i,
    {
        i -= 1;
    }
    proof {
        lemma_name_start_at(p@, i as int);
    }
    i
}

/// The parent directory of the path, empty for a bare file name.
pub fn parent_dir(p: &str) -> (r: String)
    ensures
        r@ == spec_parent(p@),
{
    let ns = name_start_index(p);
    if ns == 0 {
        String::new()
    } else {
        p.substring_char(0, ns - 1).to_owned()
    }
}

/// The index of the last `.` of a file name that can end a stem (a dot in
/// first position starts no extension), or `-1` when there is none.
pub open spec fn spec_last_dot(name: Seq<char>) -> int
    decreases name.len(),
{
    if name.len() <= 1 {
        -1
    } else if name.last() == '.' {
        name.len() - 1
    } else {
        spec_last_dot(name.drop_last())
    }
}

/// The stem of the path: its file name, without the final extension when one
/// exists.
pub open spec fn spec_file_stem(p: Seq<char>) -> Seq<char> {
    let name = spec_file_name(p);
    if spec_last_dot(name) < 0 {
        name
    } else {
        name.subrange(0, spec_last_dot(name))
    }
}

/// Characterizes [`spec_last_dot`]: either no dot stands at index one or
/// later, or `d` is the last such dot.
proof fn lemma_last_dot_at(name: Seq<char>, d: int)
    requires
        d >= -1,
        d == -1 ==> forall|k: int| 1 <= k < name.len() ==> name[k] != '.',
        d >= 0 ==> 1 <= d < name.len() && name[d] == '.',
        d >= 0 ==> forall|k: int| d < k < name.len() ==> name[k] != '.',
    ensures
        spec_last_dot(name) == d,
    decreases name.len(),
{
    if name.len() <= 1 {
        assert(d == -1);
    } else if name.last() == '.' {
        assert(d == name.len() - 1);
    } else {
        assert(d < name.len() - 1);
        lemma_last_dot_at(name.drop_last(), d);
    }
}

/// The stem of the path, as a fresh string.
pub fn file_stem_of(p: &str) -> (r: String)
    ensures
        r@ == spec_file_stem(p@),
{
    let n = p.unicode_len();
    let ns = name_start_index(p);
    let mut j = n;
    while j > 0 && j - 1 > ns && p.get_char(j - 1) != '.'
        invariant
            ns <= n,
            n == p@.len(),
            ns <= j <= n,
            forall|k: int| j <= k < n ==> p@[k] != '.',
        decreases j,
    {
        j -= 1;
    }
    let found = j > 0 && j - 1 > ns;
    proof {
        let name = spec_file_name(p@);
        assert(name.len() == n - ns);
        if found {
            // stopped on a dot: it is the last one in the name
            assert(p@[j - 1] == '.');
            assert(name[j - 1 - ns] == '.');
            lemma_last_dot_at(name, j - 1 - ns);
        } else {
            // no dot at index one or later of the name
            assert forall|k: int| 1 <= k < name.len() implies name[k] != '.' by {
                assert(name[k] == p@[ns + k]);
                assert(ns + k >= j);
            }
            lemma_last_dot_at(name, -1);
        }
    }
    if found {
        proof {
            assert(p@.subrange(ns as int, j - 1) =~= spec_file_name(p@).subrange(
                0,
                j - 1 - ns,
            ));
        }
        p.substring_char(ns, j - 1).to_owned()
    } else {
        proof {
            assert(p@.subrange(ns as int, n as int) =~= spec_file_name(p@));
        }
        p.substring_char(ns, n).to_owned()
    }
}

/// `base` and `child` joined: the child alone when the base is empty, and
/// otherwise the two with a `'/'` between them unless the base already ends
/// in a separator.
pub open spec fn spec_path_join(base: Seq<char>, child: Seq<char>) -> Seq<char> {
    if base.len() == 0 {
        child
    } else if is_sep_char(base.last()) {
        base + child
    } else {
        base + seq!['/'] + child
    }
}

/// Joins a path onto a base directory.
pub fn path_join(base: &str, child: &str) -> (r: String)
    ensures
        r@ == spec_path_join(base@, child@),
{
    let n = base.unicode_len();
    if n == 0 {
        return child.to_owned();
    }
    let mut r = base.to_owned();
    if !is_sep(base.get_char(n - 1)) {
        r.append("/");
        proof {
            reveal_strlit("/");
            assert(r@ =~= base@ + seq!['/']);
        }
    }
    r.append(child);
    proof {
        if !is_sep_char(base@.last()) {
            assert(r@ =~= base@ + seq!['/'] + child@);
        }
    }
    r
}

/// Whether the path is absolute in the model: it starts with a separator or
/// names a drive.
pub open spec fn spec_is_absolute(p: Seq<char>) -> bool {
    (p.len() >= 1 && is_sep_char(p[0])) || (p.len() >= 2 && p[1] == ':')
}

/// Runtime test for [`spec_is_absolute`].
pub fn is_absolute_path(p: &str) -> (r: bool)
    ensures
        r == spec_is_absolute(p@),
{
    let n = p.unicode_len();
    (n >= 1 && is_sep(p.get_char(0))) || (n >= 2 && p.get_char(1) == ':')
}

} // verus!
