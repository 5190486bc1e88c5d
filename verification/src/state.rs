//! Server-wide mutable state: the optional in-memory file cache. Entries
//! are created lazily on a miss and never evicted for the life of the
//! process.
use vstd::prelude::*;

verus! {

use crate::assoc::assoc_get;
use crate::assoc::assoc_insert;
use crate::assoc::assoc_lookup;
use crate::assoc::assoc_set;
use crate::file::CachedFile;

/// What the cache maps: a resolved path to the extension and content of
/// the file read for it.
pub type CacheView = Seq<(Seq<u8>, (Seq<u8>, Seq<u8>))>;

/// The state shared by all requests: the file cache, present only when
/// caching is enabled.
pub struct AppState {
    pub cached_files: Option<Vec<(Vec<u8>, CachedFile)>>,
}

impl AppState {
    /// The cache contents, for specifications.
    pub open spec fn cache_spec(&self) -> Option<CacheView> {
        match self.cached_files {
            Some(ref c) => Some(c.deep_view()),
            None => None,
        }
    }

    /// An empty, enabled cache.
    pub fn with_cache() -> (r: AppState)
        ensures
            r.cache_spec() == Some(Seq::<(Seq<u8>, (Seq<u8>, Seq<u8>))>::empty()),
    {
        let r = AppState { cached_files: Some(Vec::new()) };
        proof {
            assert(r.cached_files->Some_0.deep_view() =~= Seq::<(
                Seq<u8>,
                (Seq<u8>, Seq<u8>),
            )>::empty());
        }
        r
    }

    /// The cached entry for a path, if the cache is on and holds one.
    pub fn cache_lookup(&self, path: &Vec<u8>) -> (r: Option<&CachedFile>)
        requires
            self.cache_spec() is Some,
        ensures
            match r {
                Some(e) => assoc_lookup(self.cache_spec()->Some_0, path@) == Some(e.deep_view()),
                None => assoc_lookup(self.cache_spec()->Some_0, path@) is None,
            },
    {
        let cache = self.cached_files.as_ref().unwrap();
        assoc_get(cache, path)
    }

    /// Remember the file read for a path.
    pub fn cache_insert(&mut self, path: Vec<u8>, entry: CachedFile)
        requires
            old(self).cache_spec() is Some,
        ensures
            final(self).cache_spec() == Some(
                assoc_insert(old(self).cache_spec()->Some_0, path@, entry.deep_view()),
            ),
    {
        let cache = self.cached_files.as_mut().unwrap();
        assoc_set(cache, path, entry);
    }
}

impl Default for AppState {
    /// By default there is no cache.
    fn default() -> (r: Self)
        ensures
            r.cache_spec() is None,
    {
        AppState { cached_files: None }
    }
}

} // verus!
