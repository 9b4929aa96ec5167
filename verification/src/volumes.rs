//! Volume resolution: given one member of a (possibly multi-part) archive
//! and a listing of its directory, the set of sibling files with the same
//! stem, in ascending lexicographic order of their full paths. Volume
//! numbering is not parsed: suffixes with unequal digit counts sort purely
//! textually, as the external tool's zero-padded naming expects.

use vstd::prelude::*;
use crate::paths::{file_stem_of, spec_file_stem};
use crate::text::{lex_leq, seq_views, sort_strings};

verus! {

/// One directory entry as the caller observed it: the entry's full path and
/// whether it is a regular file.
pub struct FileEntry {
    pub path: String,
    pub is_file: bool,
}

/// Whether an entry belongs to the volume set with this stem: it is a
/// regular file and its own stem is the same.
pub open spec fn entry_matches(e: FileEntry, stem: Seq<char>) -> bool {
    e.is_file && spec_file_stem(e.path@) == stem
}

/// The paths of the entries that belong to the volume set, in listing order.
pub open spec fn matching_volumes(entries: Seq<FileEntry>, stem: Seq<char>) -> Seq<Seq<char>>
    decreases entries.len(),
{
    if entries.len() == 0 {
        Seq::empty()
    } else {
        matching_volumes(entries.drop_last(), stem) + (if entry_matches(entries.last(), stem) {
            seq![entries.last().path@]
        } else {
            Seq::empty()
        })
    }
}

/// Extending the listing by one entry extends the matching volumes by its
/// path exactly when the entry matches.
proof fn lemma_matching_push(entries: Seq<FileEntry>, e: FileEntry, stem: Seq<char>)
    ensures
        matching_volumes(entries.push(e), stem) == (if entry_matches(e, stem) {
            matching_volumes(entries, stem).push(e.path@)
        } else {
            matching_volumes(entries, stem)
        }),
{
    let p1 = entries.push(e);
    assert(p1.drop_last() =~= entries);
    assert(p1.last() == e);
    if entry_matches(e, stem) {
        assert(matching_volumes(p1, stem) =~= matching_volumes(entries, stem).push(e.path@));
    } else {
        assert(matching_volumes(p1, stem) =~= matching_volumes(entries, stem));
    }
}

/// What resolution from a directory listing must return: the matching
/// volumes in sorted order, or the target alone when nothing matches.
pub open spec fn volumes_resolution(
    target: Seq<char>,
    entries: Seq<FileEntry>,
    result: Seq<Seq<char>>,
) -> bool {
    let m = matching_volumes(entries, spec_file_stem(target));
    if m.len() == 0 {
        result == seq![target]
    } else {
        vstd::relations::sorted_by(result, lex_leq()) && result.to_multiset() == m.to_multiset()
    }
}

/// Resolves the volume set of `volume` from a listing of its parent
/// directory: the regular files whose stem equals the target's, sorted
/// ascending by full path. When the directory could not be listed (`None`)
/// or no entry matches, the target alone is the set; resolution never fails
/// and never returns an empty set.
pub fn find_all_volumes(volume: &str, listing: Option<&Vec<FileEntry>>) -> (r: Vec<String>)
    ensures
        r@.len() >= 1,
        listing is None ==> seq_views(r@) == seq![volume@],
        listing matches Some(entries) ==> volumes_resolution(volume@, entries@, seq_views(r@)),
{
    match listing {
        Option::None => {
            let mut r: Vec<String> = Vec::new();
            r.push(volume.to_owned());
            proof {
                assert(seq_views(r@) =~= seq![volume@]);
            }
            r
        },
        Option::Some(entries) => {
            let stem = file_stem_of(volume);
            let mut kept: Vec<String> = Vec::new();
            let mut i: usize = 0;
            proof {
                assert(entries@.subrange(0, 0) =~= Seq::<FileEntry>::empty());
                assert(matching_volumes(Seq::<FileEntry>::empty(), stem@) =~= Seq::<
                    Seq<char>,
                >::empty());
                assert(seq_views(kept@) =~= Seq::<Seq<char>>::empty());
            }
            while i < entries.len()
                invariant
                    0 <= i <= entries@.len(),
                    stem@ == spec_file_stem(volume@),
                    seq_views(kept@) == matching_volumes(entries@.subrange(0, i as int), stem@),
                decreases entries@.len() - i,
            {
                let ghost prev = seq_views(kept@);
                let e = &entries[i];
                if e.is_file {
                    let es = file_stem_of(e.path.as_str());
                    if es == stem {
                        kept.push(e.path.clone());
                        proof {
                            assert(seq_views(kept@) =~= prev.push(entries@[i as int].path@));
                        }
                    }
                }
                proof {
                    assert(entries@.subrange(0, i + 1) =~= entries@.subrange(0, i as int).push(
                        entries@[i as int],
                    ));
                    lemma_matching_push(entries@.subrange(0, i as int), entries@[i as int], stem@);
                }
                i += 1;
            }
            proof {
                assert(entries@.subrange(0, entries@.len() as int) =~= entries@);
            }
            if kept.len() == 0 {
                let mut r: Vec<String> = Vec::new();
                r.push(volume.to_owned());
                proof {
                    assert(seq_views(r@) =~= seq![volume@]);
                }
                r
            } else {
                sort_strings(&kept)
            }
        },
    }
}

} // verus!
