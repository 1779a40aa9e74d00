//! The tree store: the same walk over tiers as the file store, for tree
//! manifests. Only content is fetched, there are no large files, nothing is
//! derived, and there is no legacy store.

use crate::after::FetchResult;
use crate::attrs::FileAttributes;
use crate::error::StoreError;
use crate::file::StoreFileView;
use crate::keys::{keys_view, Key, KeyView};
use crate::result::FileStoreFetch;
use crate::state::wrapup::{opt_log_view, opt_memcache_view};
use crate::store::{opt_edenapi_view, FileStore, FileStoreView};
use crate::stores::{EdenApiFileStore, IndexedLogHgIdDataStore, MemcacheStore};
use crate::types::{Entry, EntryView, ExtStoredPolicy};
use vstd::prelude::*;

verus! {

/// A store for tree manifests.
pub struct TreeStore {
    inner: FileStore,
}

/// The entry that a fetched tree is returned as: its key, its stored bytes,
/// and its metadata.
pub open spec fn tree_entry(k: KeyView, f: StoreFileView) -> EntryView {
    EntryView {
        key: k,
        content: f.content->0.hg_content(),
        metadata: f.content->0.metadata(),
    }
}

/// The trees that were found, and the keys that were not.
pub struct TreeStoreFetch {
    pub complete: Vec<Entry>,
    pub incomplete: Vec<Key>,
}

/// `r` is the result `m` of a fetch for content, in the form in which trees
/// are returned: an error if a tier failed as a whole; else every complete
/// key once, as an entry, and every incomplete key once.
pub open spec fn is_tree_result(m: FetchResult, r: Result<TreeStoreFetch, StoreError>) -> bool {
    match r {
        Err(e) => m.other_errors.len() > 0 && e == m.other_errors.last(),
        Ok(t) => {
            &&& m.other_errors.len() == 0
            &&& forall|i: int|
                0 <= i < t.complete@.len() ==> m.complete.contains_key(
                    (#[trigger] t.complete@[i])@.key,
                ) && t.complete@[i]@ == tree_entry(
                    t.complete@[i]@.key,
                    m.complete[t.complete@[i]@.key],
                )
            &&& forall|k: KeyView|
                m.complete.contains_key(k) ==> exists|i: int|
                    0 <= i < t.complete@.len() && (#[trigger] t.complete@[i])@.key == k
            &&& forall|i: int, j: int|
                0 <= i < j < t.complete@.len() ==> (#[trigger] t.complete@[i])@.key != (
                #[trigger] t.complete@[j])@.key
            &&& forall|i: int|
                0 <= i < t.incomplete@.len() ==> m.incomplete.contains_key(
                    (#[trigger] t.incomplete@[i])@,
                )
            &&& forall|k: KeyView|
                m.incomplete.contains_key(k) ==> exists|i: int|
                    0 <= i < t.incomplete@.len() && (#[trigger] t.incomplete@[i])@ == k
            &&& forall|i: int, j: int|
                0 <= i < j < t.incomplete@.len() ==> (#[trigger] t.incomplete@[i])@ != (
                #[trigger] t.incomplete@[j])@
        },
    }
}

impl View for TreeStore {
    type V = FileStoreView;

    /// The tiers of the tree store, as a file store that has only them.
    closed spec fn view(&self) -> FileStoreView {
        self.inner@
    }
}

impl TreeStore {
    /// A tree store over the given tiers, each present or not. Both caches
    /// are filled by fetches.
    pub fn new(
        indexedlog_local: Option<IndexedLogHgIdDataStore>,
        indexedlog_cache: Option<IndexedLogHgIdDataStore>,
        memcache: Option<MemcacheStore>,
        edenapi: Option<EdenApiFileStore>,
    ) -> (r: Self)
        ensures
            r@.indexedlog_local == opt_log_view(indexedlog_local),
            r@.indexedlog_cache == opt_log_view(indexedlog_cache),
            r@.memcache == opt_memcache_view(memcache),
            r@.edenapi == opt_edenapi_view(edenapi),
            r@.lfs_local is None,
            r@.lfs_cache is None,
            r@.lfs_remote is None,
            r@.contentstore is None,
            r@.aux_local is None,
            r@.aux_cache is None,
            r@.extstored_policy == ExtStoredPolicy::Ignore,
            r@.lfs_threshold_bytes is None,
            r@.cache_to_local_cache,
            r@.cache_to_memcache,
            !r@.allow_writing_lfs_ptrs,
            r@.fallbacks == (crate::model::FallbackCounts {
                fetch: 0,
                fetch_miss: 0,
                fetch_hit_ptr: 0,
                fetch_hit_content: 0,
                write_ptr: 0,
            }),
    {
        let mut inner = FileStore::empty();
        inner.indexedlog_local = indexedlog_local;
        inner.indexedlog_cache = indexedlog_cache;
        inner.memcache = memcache;
        inner.edenapi = edenapi;
        TreeStore { inner }
    }

    /// Fetches the content of `keys`, from the tiers on local disk only if
    /// `local_only`.
    pub fn fetch(&mut self, keys: Vec<Key>, local_only: bool) -> (r: FileStoreFetch)
        ensures
            r@.complete.wf(),
            r@.incomplete.wf(),
            !local_only ==> {
                &&& final(self)@ == old(self)@.after_fetch(
                    keys_view(keys@),
                    FileAttributes::spec_only_content(),
                )
                &&& r@.complete.map == old(self)@.fetch_result(
                    keys_view(keys@),
                    FileAttributes::spec_only_content(),
                ).complete
                &&& r@.incomplete.map == old(self)@.fetch_result(
                    keys_view(keys@),
                    FileAttributes::spec_only_content(),
                ).incomplete
                &&& r@.other_errors == old(self)@.fetch_result(
                    keys_view(keys@),
                    FileAttributes::spec_only_content(),
                ).other_errors
            },
            local_only ==> {
                &&& final(self)@ == old(self)@.local().after_fetch(
                    keys_view(keys@),
                    FileAttributes::spec_only_content(),
                ).with_remote_of(old(self)@)
                &&& r@.complete.map == old(self)@.local().fetch_result(
                    keys_view(keys@),
                    FileAttributes::spec_only_content(),
                ).complete
                &&& r@.incomplete.map == old(self)@.local().fetch_result(
                    keys_view(keys@),
                    FileAttributes::spec_only_content(),
                ).incomplete
                &&& r@.other_errors == old(self)@.local().fetch_result(
                    keys_view(keys@),
                    FileAttributes::spec_only_content(),
                ).other_errors
            },
            forall|k: KeyView|
                keys_view(keys@).contains(k) <==> (r@.complete.map.contains_key(k)
                    || r@.incomplete.map.contains_key(k)),
            forall|k: KeyView|
                !(r@.complete.map.contains_key(k) && r@.incomplete.map.contains_key(k)),
            forall|k: KeyView| #[trigger]
                r@.complete.map.contains_key(k) ==> r@.complete.map[k].content is Some,
    {
        if local_only {
            proof {
                crate::store::lemma_fetch_partition(
                    self@.local(),
                    keys_view(keys@),
                    FileAttributes::spec_only_content(),
                );
            }
            self.inner.fetch_local(keys, FileAttributes::only_content())
        } else {
            self.inner.fetch(keys, FileAttributes::only_content())
        }
    }

    /// Fetches the trees `keys`: the entries that were found, and the keys
    /// that were not. Fails if a tier failed as a whole.
    pub fn fetch_batch(&mut self, keys: Vec<Key>) -> (r: Result<TreeStoreFetch, StoreError>)
        ensures
            final(self)@ == old(self)@.after_fetch(
                keys_view(keys@),
                FileAttributes::spec_only_content(),
            ),
            is_tree_result(
                old(self)@.fetch_result(keys_view(keys@), FileAttributes::spec_only_content()),
                r,
            ),
    {
        let ghost m = self@.fetch_result(keys_view(keys@), FileAttributes::spec_only_content());
        let fetched = self.fetch(keys, false);
        let ghost f = fetched@;
        if fetched.other_errors().len() > 0 {
            let e = fetched.other_errors()[fetched.other_errors().len() - 1];
            return Err(e);
        }
        let mut complete: Vec<Entry> = Vec::new();
        let nc = fetched.complete().len();
        let mut i: usize = 0;
        while i < nc
            invariant
                i <= nc,
                nc == f.complete.keys.len(),
                fetched@ == f,
                f.complete.wf(),
                forall|k: KeyView| #[trigger]
                    f.complete.map.contains_key(k) ==> f.complete.map[k].content is Some,
                complete@.len() == i,
                forall|j: int|
                    0 <= j < i ==> (#[trigger] complete@[j])@ == tree_entry(
                        f.complete.keys[j],
                        f.complete.map[f.complete.keys[j]],
                    ),
            decreases nc - i,
        {
            let key = fetched.complete().key_at(i).clone();
            let file = fetched.complete().value_at(i);
            match file.content() {
                Some(c) => {
                    complete.push(Entry::new(key, c.hg_content(), c.metadata()));
                },
                None => {
                    assert(false);
                },
            }
            i += 1;
        }
        let mut incomplete: Vec<Key> = Vec::new();
        let ni = fetched.incomplete().len();
        let mut j: usize = 0;
        while j < ni
            invariant
                j <= ni,
                ni == f.incomplete.keys.len(),
                fetched@ == f,
                incomplete@.len() == j,
                forall|x: int| 0 <= x < j ==> (#[trigger] incomplete@[x])@ == f.incomplete.keys[x],
            decreases ni - j,
        {
            incomplete.push(fetched.incomplete().key_at(j).clone());
            j += 1;
        }
        let ghost cv = complete@;
        let ghost iv = incomplete@;
        let r: Result<TreeStoreFetch, StoreError> = Ok(TreeStoreFetch { complete, incomplete });
        proof {
            let t = r->Ok_0;
            assert(t.complete@ == cv && t.incomplete@ == iv);
            assert forall|i: int| 0 <= i < t.complete@.len() implies m.complete.contains_key(
                (#[trigger] t.complete@[i])@.key,
            ) && t.complete@[i]@ == tree_entry(
                t.complete@[i]@.key,
                m.complete[t.complete@[i]@.key],
            ) by {
                assert(f.complete.keys.contains(f.complete.keys[i]));
            }
            assert forall|k: KeyView| m.complete.contains_key(k) implies exists|i: int|
                0 <= i < t.complete@.len() && (#[trigger] t.complete@[i])@.key == k by {
                assert(f.complete.keys.contains(k));
                let i = choose|i: int| 0 <= i < f.complete.keys.len() && f.complete.keys[i] == k;
                assert(t.complete@[i]@.key == k);
            }
            assert forall|i: int, j: int| 0 <= i < j < t.complete@.len() implies (
            #[trigger] t.complete@[i])@.key != (#[trigger] t.complete@[j])@.key by {
                assert(f.complete.keys[i] != f.complete.keys[j]);
            }
            assert forall|i: int| 0 <= i < t.incomplete@.len() implies m.incomplete.contains_key(
                (#[trigger] t.incomplete@[i])@,
            ) by {
                assert(f.incomplete.keys.contains(f.incomplete.keys[i]));
            }
            assert forall|k: KeyView| m.incomplete.contains_key(k) implies exists|i: int|
                0 <= i < t.incomplete@.len() && (#[trigger] t.incomplete@[i])@ == k by {
                assert(f.incomplete.keys.contains(k));
                let i = choose|i: int|
                    0 <= i < f.incomplete.keys.len() && f.incomplete.keys[i] == k;
                assert(t.incomplete@[i]@ == k);
            }
            assert forall|i: int, j: int| 0 <= i < j < t.incomplete@.len() implies (
            #[trigger] t.incomplete@[i])@ != (#[trigger] t.incomplete@[j])@ by {
                assert(f.incomplete.keys[i] != f.incomplete.keys[j]);
            }
        }
        r
    }

    /// Nothing needs rescanning: the tiers are read as they are.
    pub fn refresh(&self) -> (r: Result<(), StoreError>)
        ensures
            r is Ok,
    {
        Ok(())
    }
}

} // verus!
