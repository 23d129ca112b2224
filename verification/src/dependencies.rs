//! Dependency merger: copies a stub's interface files into another interface
//! root, detecting and reporting content conflicts.
//!
//! The merge is a pure function over the two file sets. For every stub file:
//! a missing destination file is written; a byte-identical one is skipped (an
//! idempotent no-op); a differing one is either overwritten, when that was
//! requested, or makes the whole operation abort with no partial writes,
//! reporting every differing file at once.

use vstd::prelude::*;

verus! {

use crate::files::FileEntry;
use crate::files::FileEntryView;
use crate::files::copy_file;
use crate::files::lemma_lookup_found;
use crate::files::lemma_lookup_some_index;
use crate::files::lemma_lookup_unique;
use crate::files::lookup;
use crate::files::lookup_file;
use crate::files::paths_unique;
use crate::seqs::lemma_filter_all_false;
use crate::seqs::lemma_filter_index;
use crate::seqs::lemma_filter_map_all_none;
use crate::seqs::lemma_filter_map_at;
use crate::seqs::lemma_filter_map_single;
use crate::seqs::lemma_filter_take_succ;

/// Maps a stub file to its path when the destination holds a different
/// content for that path.
pub open spec fn conflict_fn(dst: Seq<FileEntryView>) -> spec_fn(FileEntryView) -> Option<
    Seq<char>,
> {
    |f: FileEntryView|
        match lookup(dst, f.path) {
            Some(c) => if c != f.content {
                Some(f.path)
            } else {
                None
            },
            None => None,
        }
}

/// The paths of every stub file whose destination content differs, in order.
pub open spec fn conflicts(src: Seq<FileEntryView>, dst: Seq<FileEntryView>) -> Seq<Seq<char>> {
    src.filter_map(conflict_fn(dst))
}

/// Maps a stub file to its path when merging writes it: the destination
/// misses it, or differs and overwriting was requested.
pub open spec fn write_fn(dst: Seq<FileEntryView>, overwrite: bool) -> spec_fn(
    FileEntryView,
) -> Option<Seq<char>> {
    |f: FileEntryView|
        match lookup(dst, f.path) {
            Some(c) => if c != f.content && overwrite {
                Some(f.path)
            } else {
                None
            },
            None => Some(f.path),
        }
}

/// The paths the merge writes, in order.
pub open spec fn write_paths(
    src: Seq<FileEntryView>,
    dst: Seq<FileEntryView>,
    overwrite: bool,
) -> Seq<Seq<char>> {
    src.filter_map(write_fn(dst, overwrite))
}

/// How one existing destination file looks after the merge: overwritten with
/// the stub's content when requested, kept otherwise.
pub open spec fn upd_fn(src: Seq<FileEntryView>, overwrite: bool) -> spec_fn(
    FileEntryView,
) -> FileEntryView {
    |d: FileEntryView|
        match lookup(src, d.path) {
            Some(c) => if overwrite {
                FileEntryView { path: d.path, content: c }
            } else {
                d
            },
            None => d,
        }
}

/// The predicate selecting stub files absent from the destination.
pub open spec fn new_fn(dst: Seq<FileEntryView>) -> spec_fn(FileEntryView) -> bool {
    |f: FileEntryView| lookup(dst, f.path) is None
}

/// The destination after a merge that went through: existing files updated
/// in place, then the stub files the destination missed, appended in order.
pub open spec fn merged_dst(
    src: Seq<FileEntryView>,
    dst: Seq<FileEntryView>,
    overwrite: bool,
) -> Seq<FileEntryView> {
    dst.map_values(upd_fn(src, overwrite)) + src.filter(new_fn(dst))
}

/// Outcome of a merge: either the new destination state with the written
/// paths and whether a build-manifest update is requested of the external
/// manifest editor, or every conflicting path, with nothing written at all.
pub enum MergeOutcome {
    Applied { new_dst: Vec<FileEntry>, writes: Vec<String>, update_manifest: bool },
    Conflicts { paths: Vec<String> },
}

/// Merges the stub's interface files into the destination root.
///
/// Aborts, reporting every conflicting path, exactly when some destination
/// content differs and overwriting was not requested; otherwise reports the
/// new destination state together with the paths that had to be written.
/// The merger only decides whether a build-manifest update is requested of
/// the external manifest editor: exactly the caller's `update_manifest`
/// flag, carried on a merge that went through.
pub fn merge(src: &Vec<FileEntry>, dst: &Vec<FileEntry>, overwrite: bool, update_manifest: bool) -> (r: MergeOutcome)
    ensures
        (r is Conflicts) <==> (!overwrite && conflicts(src.deep_view(), dst.deep_view()).len()
            > 0),
        r matches MergeOutcome::Conflicts { paths } ==> paths.deep_view() == conflicts(
            src.deep_view(),
            dst.deep_view(),
        ),
        r matches MergeOutcome::Applied { new_dst, writes, update_manifest: um }
            ==> new_dst.deep_view() == merged_dst(src.deep_view(), dst.deep_view(), overwrite)
            && writes.deep_view() == write_paths(src.deep_view(), dst.deep_view(), overwrite)
            && um == update_manifest,
{
    let ghost sv = src.deep_view();
    let ghost dv = dst.deep_view();
    let mut confl: Vec<String> = Vec::new();
    let mut i: usize = 0;
    while i < src.len()
        invariant
            i <= src.len(),
            sv == src.deep_view(),
            dv == dst.deep_view(),
            confl.deep_view() == sv.take(i as int).filter_map(conflict_fn(dv)),
        decreases src.len() - i,
    {
        let hit = lookup_file(dst, src[i].path.as_str());
        proof {
            sv.lemma_filter_map_take_succ(conflict_fn(dv), i as int);
        }
        match hit {
            Some(d) => {
                if !crate::text::str_eq(d.content.as_str(), src[i].content.as_str()) {
                    crate::seqs::push_dv(&mut confl, src[i].path.clone());
                }
            },
            None => {},
        }
        proof {
            assert(confl.deep_view() =~= sv.take(i as int + 1).filter_map(conflict_fn(dv)));
        }
        i += 1;
    }
    proof {
        assert(sv.take(src.len() as int) =~= sv);
    }
    if !overwrite && confl.len() > 0 {
        return MergeOutcome::Conflicts { paths: confl };
    }
    let mut new_dst: Vec<FileEntry> = Vec::new();
    let mut j: usize = 0;
    while j < dst.len()
        invariant
            j <= dst.len(),
            sv == src.deep_view(),
            dv == dst.deep_view(),
            new_dst.deep_view() == dv.take(j as int).map_values(upd_fn(sv, overwrite)),
        decreases dst.len() - j,
    {
        let hit = lookup_file(src, dst[j].path.as_str());
        let entry = match hit {
            Some(sf) => {
                if overwrite {
                    FileEntry { path: dst[j].path.clone(), content: sf.content.clone() }
                } else {
                    copy_file(&dst[j])
                }
            },
            None => copy_file(&dst[j]),
        };
        proof {
            assert(entry.deep_view() =~= upd_fn(sv, overwrite)(dv[j as int]));
        }
        crate::seqs::push_dv(&mut new_dst, entry);
        proof {
            assert(new_dst.deep_view() =~= dv.take(j as int + 1).map_values(
                upd_fn(sv, overwrite),
            ));
        }
        j += 1;
    }
    proof {
        assert(dv.take(dst.len() as int) =~= dv);
    }
    let mut k: usize = 0;
    while k < src.len()
        invariant
            k <= src.len(),
            sv == src.deep_view(),
            dv == dst.deep_view(),
            new_dst.deep_view() == dv.map_values(upd_fn(sv, overwrite)) + sv.take(
                k as int,
            ).filter(new_fn(dv)),
        decreases src.len() - k,
    {
        let hit = lookup_file(dst, src[k].path.as_str());
        proof {
            lemma_filter_take_succ(sv, new_fn(dv), k as int);
        }
        match hit {
            Some(_) => {},
            None => {
                crate::seqs::push_dv(&mut new_dst, copy_file(&src[k]));
            },
        }
        proof {
            assert(new_dst.deep_view() =~= dv.map_values(upd_fn(sv, overwrite)) + sv.take(
                k as int + 1,
            ).filter(new_fn(dv)));
        }
        k += 1;
    }
    let mut writes: Vec<String> = Vec::new();
    let mut m: usize = 0;
    while m < src.len()
        invariant
            m <= src.len(),
            sv == src.deep_view(),
            dv == dst.deep_view(),
            writes.deep_view() == sv.take(m as int).filter_map(write_fn(dv, overwrite)),
        decreases src.len() - m,
    {
        let hit = lookup_file(dst, src[m].path.as_str());
        proof {
            sv.lemma_filter_map_take_succ(write_fn(dv, overwrite), m as int);
        }
        match hit {
            Some(d) => {
                if overwrite && !crate::text::str_eq(d.content.as_str(), src[m].content.as_str())
                {
                    crate::seqs::push_dv(&mut writes, src[m].path.clone());
                }
            },
            None => {
                crate::seqs::push_dv(&mut writes, src[m].path.clone());
            },
        }
        proof {
            assert(writes.deep_view() =~= sv.take(m as int + 1).filter_map(
                write_fn(dv, overwrite),
            ));
        }
        m += 1;
    }
    proof {
        assert(sv.take(src.len() as int) =~= sv);
    }
    MergeOutcome::Applied { new_dst, writes, update_manifest }
}

/// Looking a path up in a concatenation searches the front first.
proof fn lemma_lookup_concat(a: Seq<FileEntryView>, b: Seq<FileEntryView>, path: Seq<char>)
    ensures
        lookup(a + b, path) == if lookup(a, path) is Some {
            lookup(a, path)
        } else {
            lookup(b, path)
        },
    decreases a.len(),
{
    if a.len() == 0 {
        assert(a + b =~= b);
    } else {
        assert((a + b).first() == a.first());
        assert((a + b).drop_first() =~= a.drop_first() + b);
        lemma_lookup_concat(a.drop_first(), b, path);
    }
}

/// Looking a path up among the updated destination files finds the updated
/// content of the first destination file carrying the path.
proof fn lemma_lookup_mapped(
    src: Seq<FileEntryView>,
    dst: Seq<FileEntryView>,
    overwrite: bool,
    path: Seq<char>,
)
    ensures
        lookup(dst.map_values(upd_fn(src, overwrite)), path) == match lookup(dst, path) {
            None => None::<Seq<char>>,
            Some(c) => Some(
                if overwrite && lookup(src, path) is Some {
                    lookup(src, path).unwrap()
                } else {
                    c
                },
            ),
        },
    decreases dst.len(),
{
    let mapped = dst.map_values(upd_fn(src, overwrite));
    if dst.len() == 0 {
        assert(mapped =~= Seq::<FileEntryView>::empty());
    } else {
        assert(mapped.first() == upd_fn(src, overwrite)(dst.first()));
        assert(mapped.drop_first() =~= dst.drop_first().map_values(upd_fn(src, overwrite)));
        lemma_lookup_mapped(src, dst.drop_first(), overwrite, path);
    }
}

/// Filtering keeps paths unique.
proof fn lemma_unique_filter(s: Seq<FileEntryView>, p: spec_fn(FileEntryView) -> bool)
    requires
        paths_unique(s),
    ensures
        paths_unique(s.filter(p)),
    decreases s.len(),
{
    reveal(Seq::filter);
    if s.len() > 0 {
        let pre = s.drop_last();
        assert(forall|k: int| 0 <= k < pre.len() ==> #[trigger] pre[k] == s[k]);
        lemma_unique_filter(pre, p);
        if p(s.last()) {
            let f = s.filter(p);
            assert(f == pre.filter(p).push(s.last()));
            assert forall|a: int, b: int| 0 <= a < b < f.len() implies #[trigger] f[a].path
                != #[trigger] f[b].path by {
                if b < f.len() - 1 {
                    assert(pre.filter(p)[a].path != pre.filter(p)[b].path);
                } else {
                    lemma_filter_index(pre, p, a);
                    let ja = choose|ja: int|
                        0 <= ja < pre.len() && #[trigger] pre[ja] == pre.filter(p)[a];
                    assert(s[ja].path != s[s.len() - 1].path);
                }
            }
        }
    }
}

/// The paths of the updated destination files are the destination's paths.
proof fn lemma_mapped_paths(src: Seq<FileEntryView>, dst: Seq<FileEntryView>, overwrite: bool)
    ensures
        dst.map_values(upd_fn(src, overwrite)).len() == dst.len(),
        forall|i: int|
            0 <= i < dst.len() ==> #[trigger] dst.map_values(upd_fn(src, overwrite))[i].path
                == dst[i].path,
{
}

/// After a merge that went through, every stub file is found in the
/// destination with exactly the stub's content.
pub proof fn lemma_merged_lookup(
    src: Seq<FileEntryView>,
    dst: Seq<FileEntryView>,
    overwrite: bool,
    k: int,
)
    requires
        paths_unique(src),
        0 <= k < src.len(),
        !overwrite ==> conflicts(src, dst).len() == 0,
    ensures
        lookup(merged_dst(src, dst, overwrite), src[k].path) == Some(src[k].content),
{
    let p = src[k].path;
    lemma_lookup_unique(src, k);
    let mapped = dst.map_values(upd_fn(src, overwrite));
    let appended = src.filter(new_fn(dst));
    lemma_lookup_concat(mapped, appended, p);
    lemma_lookup_mapped(src, dst, overwrite, p);
    match lookup(dst, p) {
        Some(c) => {
            if !overwrite && c != src[k].content {
                lemma_filter_map_at(src, conflict_fn(dst), k);
                assert(false);
            }
        },
        None => {
            src.lemma_filter_contains(new_fn(dst), k);
            let idx = choose|idx: int|
                0 <= idx < appended.len() && #[trigger] appended[idx] == src[k];
            lemma_unique_filter(src, new_fn(dst));
            lemma_lookup_unique(appended, idx);
        },
    }
}

/// A merge that went through keeps paths unique.
pub proof fn lemma_merged_unique(src: Seq<FileEntryView>, dst: Seq<FileEntryView>, overwrite: bool)
    requires
        paths_unique(src),
        paths_unique(dst),
    ensures
        paths_unique(merged_dst(src, dst, overwrite)),
{
    let mapped = dst.map_values(upd_fn(src, overwrite));
    let appended = src.filter(new_fn(dst));
    let m = merged_dst(src, dst, overwrite);
    lemma_mapped_paths(src, dst, overwrite);
    lemma_unique_filter(src, new_fn(dst));
    assert forall|a: int, b: int| 0 <= a < b < m.len() implies #[trigger] m[a].path
        != #[trigger] m[b].path by {
        if a < mapped.len() && b < mapped.len() {
            assert(dst[a].path != dst[b].path);
        } else if a >= mapped.len() && b >= mapped.len() {
            assert(appended[a - mapped.len()].path != appended[b - mapped.len()].path);
        } else {
            let f = appended[b - mapped.len()];
            src.lemma_filter_pred(new_fn(dst), b - mapped.len());
            assert(lookup(dst, f.path) is None);
            if dst[a].path == f.path {
                lemma_lookup_found(dst, a);
                assert(false);
            }
        }
    }
}

/// Idempotent merge: merging the same stub files into the destination a merge
/// just produced conflicts with nothing, writes nothing, and leaves the
/// destination exactly as it was, whether or not overwriting is requested the
/// second time.
pub proof fn lemma_merge_idempotent(
    src: Seq<FileEntryView>,
    dst: Seq<FileEntryView>,
    overwrite: bool,
    again: bool,
)
    requires
        paths_unique(src),
        paths_unique(dst),
        !overwrite ==> conflicts(src, dst).len() == 0,
    ensures
        conflicts(src, merged_dst(src, dst, overwrite)) == Seq::<Seq<char>>::empty(),
        write_paths(src, merged_dst(src, dst, overwrite), again) == Seq::<Seq<char>>::empty(),
        merged_dst(src, merged_dst(src, dst, overwrite), again) == merged_dst(
            src,
            dst,
            overwrite,
        ),
{
    let m = merged_dst(src, dst, overwrite);
    assert forall|k: int| 0 <= k < src.len() implies lookup(m, #[trigger] src[k].path) == Some(
        src[k].content,
    ) by {
        lemma_merged_lookup(src, dst, overwrite, k);
    }
    assert forall|k: int| 0 <= k < src.len() implies conflict_fn(m)(#[trigger] src[k])
        is None by {}
    lemma_filter_map_all_none(src, conflict_fn(m));
    assert forall|k: int| 0 <= k < src.len() implies write_fn(m, again)(#[trigger] src[k])
        is None by {}
    lemma_filter_map_all_none(src, write_fn(m, again));
    assert forall|k: int| 0 <= k < src.len() implies !(new_fn(m)(#[trigger] src[k])) by {}
    lemma_filter_all_false(src, new_fn(m));
    lemma_merged_unique(src, dst, overwrite);
    assert forall|j: int| 0 <= j < m.len() implies m.map_values(upd_fn(src, again))[j] == #[
        trigger
    ] m[j] by {
        let d = m[j];
        if lookup(src, d.path) is Some {
            lemma_lookup_some_index(src, d.path);
            let k = choose|k: int|
                0 <= k < src.len() && #[trigger] src[k].path == d.path && lookup(src, d.path)
                    == Some(src[k].content);
            lemma_lookup_unique(m, j);
            assert(lookup(m, src[k].path) == Some(src[k].content));
            assert(d.content == src[k].content);
            assert(upd_fn(src, again)(d) =~= d);
        }
    }
    assert(merged_dst(src, m, again) =~= m);
}

/// Conflict detection: when exactly one stub file's destination content was
/// changed after a merge, re-merging without overwrite reports exactly that
/// file's path; re-merging with overwrite restores every stub file's content.
pub proof fn lemma_conflict_detection(src: Seq<FileEntryView>, dst: Seq<FileEntryView>, k: int)
    requires
        paths_unique(src),
        paths_unique(dst),
        0 <= k < src.len(),
        forall|j: int|
            0 <= j < src.len() && j != k ==> lookup(dst, #[trigger] src[j].path) == Some(
                src[j].content,
            ),
        lookup(dst, src[k].path) is Some,
        lookup(dst, src[k].path) != Some(src[k].content),
    ensures
        conflicts(src, dst) == seq![src[k].path],
        forall|j: int|
            0 <= j < src.len() ==> lookup(merged_dst(src, dst, true), #[trigger] src[j].path)
                == Some(src[j].content),
{
    assert(conflict_fn(dst)(src[k]) == Some(src[k].path));
    lemma_filter_map_single(src, conflict_fn(dst), k);
    assert forall|j: int| 0 <= j < src.len() implies lookup(
        merged_dst(src, dst, true),
        #[trigger] src[j].path,
    ) == Some(src[j].content) by {
        lemma_merged_lookup(src, dst, true, j);
    }
}

} // verus!
