//! The content root as a value: which paths are files with which bytes,
//! and which paths are directories with which entry names. The pipeline is
//! verified against this model; whoever runs the server fills it from, or
//! checks it against, a real directory tree.
use vstd::prelude::*;

verus! {

use crate::assoc::assoc_get;
use crate::assoc::assoc_has;
use crate::assoc::assoc_insert;
use crate::assoc::assoc_lookup;
use crate::assoc::assoc_set;
use crate::assoc::lemma_assoc_index;

/// The files of a content root: resolved path to content bytes.
pub type FilesView = Seq<(Seq<u8>, Seq<u8>)>;

/// The directories of a content root: resolved path to entry names.
pub type DirsView = Seq<(Seq<u8>, Seq<Seq<u8>>)>;

/// A content root held in memory.
pub struct ContentStore {
    files: Vec<(Vec<u8>, Vec<u8>)>,
    dirs: Vec<(Vec<u8>, Vec<Vec<u8>>)>,
}

impl ContentStore {
    /// The files, for specifications.
    pub closed spec fn files_spec(&self) -> FilesView {
        self.files.deep_view()
    }

    /// The directories, for specifications.
    pub closed spec fn dirs_spec(&self) -> DirsView {
        self.dirs.deep_view()
    }

    /// An empty content root.
    pub fn new() -> (r: ContentStore)
        ensures
            r.files_spec() == Seq::<(Seq<u8>, Seq<u8>)>::empty(),
            r.dirs_spec() == Seq::<(Seq<u8>, Seq<Seq<u8>>)>::empty(),
    {
        let r = ContentStore { files: Vec::new(), dirs: Vec::new() };
        proof {
            assert(r.files.deep_view() =~= Seq::<(Seq<u8>, Seq<u8>)>::empty());
            assert(r.dirs.deep_view() =~= Seq::<(Seq<u8>, Seq<Seq<u8>>)>::empty());
        }
        r
    }

    /// Put a file under a path.
    pub fn add_file(&mut self, path: Vec<u8>, content: Vec<u8>)
        ensures
            final(self).files_spec() == assoc_insert(old(self).files_spec(), path@, content@),
            final(self).dirs_spec() == old(self).dirs_spec(),
    {
        proof {
            assert(content.deep_view() =~= content@);
        }
        assoc_set(&mut self.files, path, content);
    }

    /// Put a directory with its entry names under a path.
    pub fn add_dir(&mut self, path: Vec<u8>, entries: Vec<Vec<u8>>)
        ensures
            final(self).dirs_spec() == assoc_insert(
                old(self).dirs_spec(),
                path@,
                entries.deep_view(),
            ),
            final(self).files_spec() == old(self).files_spec(),
    {
        assoc_set(&mut self.dirs, path, entries);
    }

    /// The content of the file under a path, if there is one.
    pub fn get_file(&self, path: &Vec<u8>) -> (r: Option<&Vec<u8>>)
        ensures
            match r {
                Some(c) => assoc_lookup(self.files_spec(), path@) == Some(c@),
                None => assoc_lookup(self.files_spec(), path@) is None,
            },
    {
        let r = assoc_get(&self.files, path);
        proof {
            match r {
                Some(c) => {
                    assert(c.deep_view() =~= c@);
                },
                None => {},
            }
        }
        r
    }

    /// Whether a path names a directory.
    pub fn is_dir(&self, path: &Vec<u8>) -> (r: bool)
        ensures
            r == assoc_has(self.dirs_spec(), path@),
    {
        let r = assoc_get(&self.dirs, path);
        proof {
            lemma_assoc_index(self.dirs_spec(), path@);
        }
        r.is_some()
    }

    /// The entry names of the directory under a path, if there is one.
    pub fn dir_entries(&self, path: &Vec<u8>) -> (r: Option<&Vec<Vec<u8>>>)
        ensures
            match r {
                Some(es) => assoc_lookup(self.dirs_spec(), path@) == Some(es.deep_view()),
                None => assoc_lookup(self.dirs_spec(), path@) is None,
            },
    {
        assoc_get(&self.dirs, path)
    }
}

} // verus!
