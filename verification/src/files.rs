//! Plain model of a set of text files: relative paths and contents. The
//! pipeline's stages exchange and transform these values; reading and writing
//! real directories is the caller's concern.

use vstd::prelude::*;

verus! {

/// One text file, as a path relative to some root plus its full content.
pub struct FileEntry {
    pub path: String,
    pub content: String,
}

/// Mathematical image of a `FileEntry`.
#[verifier::ext_equal]
pub ghost struct FileEntryView {
    pub path: Seq<char>,
    pub content: Seq<char>,
}

impl DeepView for FileEntry {
    type V = FileEntryView;

    open spec fn deep_view(&self) -> FileEntryView {
        FileEntryView { path: self.path@, content: self.content@ }
    }
}

/// No two files share a path; what any directory tree guarantees.
pub open spec fn paths_unique(files: Seq<FileEntryView>) -> bool {
    forall|i: int, j: int|
        0 <= i < j < files.len() ==> #[trigger] files[i].path != #[trigger] files[j].path
}

/// The content of the first file carrying `path`, if any.
pub open spec fn lookup(files: Seq<FileEntryView>, path: Seq<char>) -> Option<Seq<char>>
    decreases files.len(),
{
    if files.len() == 0 {
        None
    } else if files.first().path == path {
        Some(files.first().content)
    } else {
        lookup(files.drop_first(), path)
    }
}

/// A found content always belongs to some file of the sequence.
pub proof fn lemma_lookup_some_index(files: Seq<FileEntryView>, path: Seq<char>)
    requires
        lookup(files, path) is Some,
    ensures
        exists|i: int|
            0 <= i < files.len() && #[trigger] files[i].path == path && lookup(files, path)
                == Some(files[i].content),
    decreases files.len(),
{
    if files.first().path == path {
        assert(files[0].path == path);
    } else {
        lemma_lookup_some_index(files.drop_first(), path);
        let i = choose|i: int|
            0 <= i < files.drop_first().len() && #[trigger] files.drop_first()[i].path == path
                && lookup(files.drop_first(), path) == Some(files.drop_first()[i].content);
        assert(files[i + 1].path == path);
    }
}

/// A file of the sequence is always found, with some content.
pub proof fn lemma_lookup_found(files: Seq<FileEntryView>, i: int)
    requires
        0 <= i < files.len(),
    ensures
        lookup(files, files[i].path) is Some,
    decreases files.len(),
{
    if files.first().path == files[i].path {
    } else {
        lemma_lookup_found(files.drop_first(), i - 1);
    }
}

/// With unique paths, looking up a file's own path finds its content.
pub proof fn lemma_lookup_unique(files: Seq<FileEntryView>, i: int)
    requires
        paths_unique(files),
        0 <= i < files.len(),
    ensures
        lookup(files, files[i].path) == Some(files[i].content),
    decreases files.len(),
{
    if files.first().path == files[i].path {
        if i != 0 {
            assert(files[0].path != files[i].path);
        }
    } else {
        assert forall|a: int, b: int|
            0 <= a < b < files.drop_first().len() implies #[trigger] files.drop_first()[a].path
            != #[trigger] files.drop_first()[b].path by {
            assert(files.drop_first()[a] == files[a + 1]);
            assert(files.drop_first()[b] == files[b + 1]);
        }
        lemma_lookup_unique(files.drop_first(), i - 1);
    }
}

/// A lookup that misses everything up to `i` restarts from `i`.
pub proof fn lemma_lookup_skip_one(files: Seq<FileEntryView>, path: Seq<char>, i: int)
    requires
        0 <= i < files.len(),
        files[i].path != path,
    ensures
        lookup(files.skip(i), path) == lookup(files.skip(i + 1), path),
{
    assert(files.skip(i).first() == files[i]);
    assert(files.skip(i).drop_first() =~= files.skip(i + 1));
}

/// Finds the first file carrying `path`, as `lookup` describes it.
pub fn lookup_file<'a>(files: &'a Vec<FileEntry>, path: &str) -> (r: Option<&'a FileEntry>)
    ensures
        match r {
            Some(f) => f.path@ == path@ && lookup(files.deep_view(), path@) == Some(f.content@),
            None => lookup(files.deep_view(), path@) is None,
        },
{
    let ghost fv = files.deep_view();
    proof {
        assert(fv.skip(0) =~= fv);
    }
    let mut i: usize = 0;
    while i < files.len()
        invariant
            i <= files.len(),
            fv == files.deep_view(),
            lookup(fv, path@) == lookup(fv.skip(i as int), path@),
        decreases files.len() - i,
    {
        if crate::text::str_eq(files[i].path.as_str(), path) {
            proof {
                assert(fv.skip(i as int).first() == fv[i as int]);
            }
            return Some(&files[i]);
        }
        proof {
            lemma_lookup_skip_one(fv, path@, i as int);
        }
        i += 1;
    }
    proof {
        assert(fv.skip(files.len() as int) =~= Seq::<FileEntryView>::empty());
    }
    None
}

/// A fresh copy of a file entry.
pub fn copy_file(f: &FileEntry) -> (r: FileEntry)
    ensures
        r.deep_view() == f.deep_view(),
{
    let r = FileEntry { path: f.path.clone(), content: f.content.clone() };
    proof {
        assert(r.deep_view() =~= f.deep_view());
    }
    r
}

} // verus!
