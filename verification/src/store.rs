//! The file store: a stack of tiers, and the fetch that walks it.

use crate::after::{
    lemma_derive_computable_inv, lemma_finish_partition, CacheTiers, FetchResult,
};
use crate::attrs::FileAttributes;
use crate::keys::{keys_view, Key, KeyView};
use crate::lfs_remote::{lemma_fetch_lfs_remote_inv, opt_lfs_view, LfsTiers};
use crate::model::{lemma_init_inv, FallbackCounts, FetchModel};
use crate::probe::{
    lemma_fetch_aux_indexedlog_inv, lemma_fetch_contentstore_inv, lemma_fetch_edenapi_inv,
    lemma_fetch_indexedlog_inv, lemma_fetch_lfs_inv, lemma_fetch_memcache_inv,
    lemma_same_probe_trans, lemma_same_request_trans,
};
use crate::result::FileStoreFetch;
use crate::state::wrapup::{opt_log_view, opt_memcache_view};
use crate::state::{ContentStoreFallbacks, FetchState};
use crate::stores::{
    ContentStore, EdenApiFileStore, IndexedLogHgIdDataStore, IndexedLogView, LfsRemote,
    LegacyView, LfsRemoteView, LfsStore, LfsStoreView, MemcacheStore, RemoteView,
};
use crate::types::{ExtStoredPolicy, LocalStoreType};
use vstd::prelude::*;

verus! {

/// The mathematical value of a [`FileStore`].
pub struct FileStoreView {
    pub extstored_policy: ExtStoredPolicy,
    pub lfs_threshold_bytes: Option<u64>,
    pub cache_to_local_cache: bool,
    pub cache_to_memcache: bool,
    pub allow_writing_lfs_ptrs: bool,
    pub indexedlog_local: Option<IndexedLogView>,
    pub lfs_local: Option<LfsStoreView>,
    pub indexedlog_cache: Option<IndexedLogView>,
    pub lfs_cache: Option<LfsStoreView>,
    pub memcache: Option<RemoteView>,
    pub lfs_remote: Option<LfsRemoteView>,
    pub edenapi: Option<RemoteView>,
    pub contentstore: Option<LegacyView>,
    pub fallbacks: FallbackCounts,
    pub aux_local: Option<IndexedLogView>,
    pub aux_cache: Option<IndexedLogView>,
}

impl FileStoreView {
    /// The state after the auxiliary-data tiers were asked: the cache, then
    /// the local store.
    pub open spec fn probe_aux_tiers(self, s: FetchModel) -> FetchModel {
        let s = match self.aux_cache {
            Some(t) => s.fetch_aux_indexedlog(t),
            None => s,
        };
        match self.aux_local {
            Some(t) => s.fetch_aux_indexedlog(t),
            None => s,
        }
    }

    /// The state after the indexed logs were asked: the cache, then the
    /// local store.
    pub open spec fn probe_indexedlog_tiers(self, s: FetchModel) -> FetchModel {
        let s = match self.indexedlog_cache {
            Some(t) => s.fetch_indexedlog(t, LocalStoreType::Cache),
            None => s,
        };
        match self.indexedlog_local {
            Some(t) => s.fetch_indexedlog(t, LocalStoreType::Local),
            None => s,
        }
    }

    /// The state after the large-file tiers were asked: the cache, then the
    /// local store.
    pub open spec fn probe_lfs_tiers(self, s: FetchModel) -> FetchModel {
        let s = match self.lfs_cache {
            Some(t) => s.fetch_lfs(t, LocalStoreType::Cache),
            None => s,
        };
        match self.lfs_local {
            Some(t) => s.fetch_lfs(t, LocalStoreType::Local),
            None => s,
        }
    }

    /// The state after the tiers on local disk were asked, in their order:
    /// auxiliary data, indexed logs, large files.
    pub open spec fn probe_disk(self, s: FetchModel) -> FetchModel {
        self.probe_lfs_tiers(self.probe_indexedlog_tiers(self.probe_aux_tiers(s)))
    }

    /// The state after the legacy store was asked.
    pub open spec fn probe_legacy(self, s: FetchModel) -> FetchModel {
        match self.contentstore {
            Some(c) => s.fetch_contentstore(c),
            None => s,
        }
    }

    /// The state after the distributed memory cache and the remote API
    /// were asked.
    pub open spec fn probe_network(self, s: FetchModel) -> FetchModel {
        let s = match self.memcache {
            Some(t) => s.fetch_memcache(t),
            None => s,
        };
        match self.edenapi {
            Some(t) => s.fetch_edenapi(t),
            None => s,
        }
    }

    /// The state and the large-file tiers after the large-file server was
    /// asked.
    pub open spec fn probe_lfs_remote(self, s: FetchModel) -> (FetchModel, LfsTiers) {
        let t = LfsTiers { local: self.lfs_local, cache: self.lfs_cache };
        match self.lfs_remote {
            Some(r) => s.fetch_lfs_remote(r, t),
            None => (s, t),
        }
    }

    /// The state after every configured tier was asked, in the fixed order,
    /// ending with the legacy store, and the large-file tiers as the
    /// large-file server left them.
    #[verifier::opaque]
    pub open spec fn probed(self, keys: Seq<KeyView>, attrs: FileAttributes) -> (
        FetchModel,
        LfsTiers,
    ) {
        let s = FetchModel::init(keys, attrs, self.extstored_policy, self.fallbacks);
        let s = self.probe_disk(s);
        let s = self.probe_network(s);
        let (s, t) = self.probe_lfs_remote(s);
        (self.probe_legacy(s), t)
    }

    /// The state after the probes and the derivation pass.
    pub open spec fn derived(self, keys: Seq<KeyView>, attrs: FileAttributes) -> FetchModel {
        self.probed(keys, attrs).0.derive_computable()
    }

    /// The tiers that the write-back may write to: the indexed-log cache
    /// and the memory cache only where the store is set to fill them.
    pub open spec fn cache_tiers(self) -> CacheTiers {
        CacheTiers {
            indexedlog_cache: if self.cache_to_local_cache {
                self.indexedlog_cache
            } else {
                None
            },
            memcache: if self.cache_to_memcache {
                self.memcache
            } else {
                None
            },
            aux_cache: self.aux_cache,
            aux_local: self.aux_local,
        }
    }

    /// What a fetch of `keys` with `attrs` returns.
    pub open spec fn fetch_result(self, keys: Seq<KeyView>, attrs: FileAttributes) -> FetchResult {
        self.derived(keys, attrs).written().finish()
    }

    /// The store after a fetch of `keys` with `attrs`: the large-file
    /// tiers hold what the large-file server delivered, the caches hold
    /// what was written back, and the fallback counts are brought up to
    /// date.
    pub open spec fn after_fetch(self, keys: Seq<KeyView>, attrs: FileAttributes) -> FileStoreView {
        let lfs = self.probed(keys, attrs).1;
        let s = self.derived(keys, attrs);
        let t = s.written_tiers(self.cache_tiers());
        FileStoreView {
            lfs_local: lfs.local,
            lfs_cache: lfs.cache,
            indexedlog_cache: if self.cache_to_local_cache {
                t.indexedlog_cache
            } else {
                self.indexedlog_cache
            },
            memcache: if self.cache_to_memcache {
                t.memcache
            } else {
                self.memcache
            },
            aux_cache: t.aux_cache,
            aux_local: t.aux_local,
            fallbacks: s.fallbacks,
            ..self
        }
    }

    /// The store with only its tiers on local disk.
    pub open spec fn local(self) -> FileStoreView {
        FileStoreView {
            memcache: None,
            edenapi: None,
            lfs_remote: None,
            contentstore: None,
            ..self
        }
    }
}

/// Asking the auxiliary-data tiers keeps the invariants and the request.
pub proof fn lemma_probe_aux_tiers_inv(store: FileStoreView, s: FetchModel)
    requires
        s.inv(),
    ensures
        store.probe_aux_tiers(s).inv(),
        store.probe_aux_tiers(s).same_probe(s),
{
    let s1 = match store.aux_cache {
        Some(t) => s.fetch_aux_indexedlog(t),
        None => s,
    };
    if store.aux_cache is Some {
        lemma_fetch_aux_indexedlog_inv(s, store.aux_cache->0);
    }
    if store.aux_local is Some {
        lemma_fetch_aux_indexedlog_inv(s1, store.aux_local->0);
        lemma_same_probe_trans(s1.fetch_aux_indexedlog(store.aux_local->0), s1, s);
    }
}

/// Asking the indexed logs keeps the invariants and the request.
pub proof fn lemma_probe_indexedlog_tiers_inv(store: FileStoreView, s: FetchModel)
    requires
        s.inv(),
    ensures
        store.probe_indexedlog_tiers(s).inv(),
        store.probe_indexedlog_tiers(s).same_probe(s),
{
    let s1 = match store.indexedlog_cache {
        Some(t) => s.fetch_indexedlog(t, LocalStoreType::Cache),
        None => s,
    };
    if store.indexedlog_cache is Some {
        lemma_fetch_indexedlog_inv(s, store.indexedlog_cache->0, LocalStoreType::Cache);
    }
    if store.indexedlog_local is Some {
        lemma_fetch_indexedlog_inv(s1, store.indexedlog_local->0, LocalStoreType::Local);
        lemma_same_probe_trans(
            s1.fetch_indexedlog(store.indexedlog_local->0, LocalStoreType::Local),
            s1,
            s,
        );
    }
}

/// Asking the large-file tiers keeps the invariants and the request.
pub proof fn lemma_probe_lfs_tiers_inv(store: FileStoreView, s: FetchModel)
    requires
        s.inv(),
    ensures
        store.probe_lfs_tiers(s).inv(),
        store.probe_lfs_tiers(s).same_probe(s),
{
    let s1 = match store.lfs_cache {
        Some(t) => s.fetch_lfs(t, LocalStoreType::Cache),
        None => s,
    };
    if store.lfs_cache is Some {
        lemma_fetch_lfs_inv(s, store.lfs_cache->0, LocalStoreType::Cache);
    }
    if store.lfs_local is Some {
        lemma_fetch_lfs_inv(s1, store.lfs_local->0, LocalStoreType::Local);
        lemma_same_probe_trans(s1.fetch_lfs(store.lfs_local->0, LocalStoreType::Local), s1, s);
    }
}

/// Asking the tiers on local disk keeps the invariants and the request.
pub proof fn lemma_probe_disk_inv(store: FileStoreView, s: FetchModel)
    requires
        s.inv(),
    ensures
        store.probe_disk(s).inv(),
        store.probe_disk(s).same_probe(s),
{
    let s1 = store.probe_aux_tiers(s);
    lemma_probe_aux_tiers_inv(store, s);
    let s2 = store.probe_indexedlog_tiers(s1);
    lemma_probe_indexedlog_tiers_inv(store, s1);
    let s3 = store.probe_lfs_tiers(s2);
    lemma_probe_lfs_tiers_inv(store, s2);
    lemma_same_probe_trans(s2, s1, s);
    lemma_same_probe_trans(s3, s2, s);
}

/// Asking the memory cache and the remote API keeps the invariants and the
/// request.
pub proof fn lemma_probe_network_inv(store: FileStoreView, s: FetchModel)
    requires
        s.inv(),
    ensures
        store.probe_network(s).inv(),
        store.probe_network(s).same_probe(s),
{
    let s1 = match store.memcache {
        Some(t) => s.fetch_memcache(t),
        None => s,
    };
    if store.memcache is Some {
        lemma_fetch_memcache_inv(s, store.memcache->0);
    }
    if store.edenapi is Some {
        lemma_fetch_edenapi_inv(s1, store.edenapi->0);
        lemma_same_probe_trans(s1.fetch_edenapi(store.edenapi->0), s1, s);
    }
}

/// Asking the large-file server and the legacy store keeps the invariants and
/// the request.
pub proof fn lemma_probe_remote_inv(store: FileStoreView, s: FetchModel)
    requires
        s.inv(),
    ensures
        store.probe_legacy(store.probe_lfs_remote(s).0).inv(),
        store.probe_legacy(store.probe_lfs_remote(s).0).same_probe(s),
{
    let s1 = store.probe_lfs_remote(s).0;
    if store.lfs_remote is Some {
        lemma_fetch_lfs_remote_inv(
            s,
            store.lfs_remote->0,
            LfsTiers { local: store.lfs_local, cache: store.lfs_cache },
        );
    }
    if store.contentstore is Some {
        lemma_fetch_contentstore_inv(s1, store.contentstore->0);
        lemma_same_probe_trans(s1.fetch_contentstore(store.contentstore->0), s1, s);
    }
}

/// The probes and the derivation keep the invariants of the state machine,
/// and the request.
pub proof fn lemma_derived_inv(store: FileStoreView, keys: Seq<KeyView>, attrs: FileAttributes)
    ensures
        store.derived(keys, attrs).inv(),
        store.derived(keys, attrs).written().inv(),
        forall|k: KeyView| store.derived(keys, attrs).written().requested(k) <==> keys.contains(k),
        store.derived(keys, attrs).written().request_attrs == attrs,
        store.derived(keys, attrs).request_attrs == attrs,
        store.probed(keys, attrs).0.inv(),
        store.probed(keys, attrs).0.computed_aux_data == crate::assoc::OrdMap::<
            KeyView,
            LocalStoreType,
        >::empty(),
{
    reveal(FileStoreView::probed);
    let s0 = FetchModel::init(keys, attrs, store.extstored_policy, store.fallbacks);
    lemma_init_inv(keys, attrs, store.extstored_policy, store.fallbacks);
    let s1 = store.probe_disk(s0);
    lemma_probe_disk_inv(store, s0);
    let s2 = store.probe_network(s1);
    lemma_probe_network_inv(store, s1);
    let s3 = store.probe_legacy(store.probe_lfs_remote(s2).0);
    lemma_probe_remote_inv(store, s2);
    assert(s3 == store.probed(keys, attrs).0);
    lemma_derive_computable_inv(s3);
    let s4 = s3.derive_computable();
    lemma_same_probe_trans(s2, s1, s0);
    lemma_same_probe_trans(s3, s2, s0);
    lemma_same_request_trans(s4, s3, s0);
    assert(s4.written().same_request(s4));
    lemma_same_request_trans(s4.written(), s4, s0);
    assert forall|k: KeyView| s4.written().requested(k) <==> keys.contains(k) by {
        assert(s4.written().requested(k) <==> s0.requested(k));
    }
    lemma_written_inv(s4);
}

/// The write-back keeps the invariants.
pub proof fn lemma_written_inv(s: FetchModel)
    requires
        s.inv(),
    ensures
        s.written().inv(),
{
}

/// A store for file content, built from tiers that are each present or
/// not: local stores, shared caches, a distributed memory cache, a remote
/// API, a large-file server, and a legacy store that is asked last.
pub struct FileStore {
    /// What to do with entries flagged as large-file pointers.
    pub extstored_policy: ExtStoredPolicy,
    /// Files larger than this are written as large files.
    pub lfs_threshold_bytes: Option<u64>,
    /// Whether fetches fill the indexed-log cache.
    pub cache_to_local_cache: bool,
    /// Whether fetches fill the distributed memory cache.
    pub cache_to_memcache: bool,
    /// Whether large-file pointers may be written directly, which only
    /// tests do.
    pub allow_writing_lfs_ptrs: bool,
    /// The local indexed log.
    pub indexedlog_local: Option<IndexedLogHgIdDataStore>,
    /// The local large-file store.
    pub lfs_local: Option<LfsStore>,
    /// The shared indexed-log cache.
    pub indexedlog_cache: Option<IndexedLogHgIdDataStore>,
    /// The shared large-file cache.
    pub lfs_cache: Option<LfsStore>,
    /// The distributed memory cache.
    pub memcache: Option<MemcacheStore>,
    /// The large-file server.
    pub lfs_remote: Option<LfsRemote>,
    /// The remote API.
    pub edenapi: Option<EdenApiFileStore>,
    /// The legacy store.
    pub contentstore: Option<ContentStore>,
    /// Counts of legacy fallback use.
    pub fallbacks: ContentStoreFallbacks,
    /// The local auxiliary-data store.
    pub aux_local: Option<IndexedLogHgIdDataStore>,
    /// The auxiliary-data cache.
    pub aux_cache: Option<IndexedLogHgIdDataStore>,
}

/// The view of a remote API that may be there.
pub open spec fn opt_edenapi_view(store: Option<EdenApiFileStore>) -> Option<RemoteView> {
    match store {
        Some(s) => Some(s@),
        None => None,
    }
}

/// The view of a legacy store that may be there.
pub open spec fn opt_contentstore_view(store: Option<ContentStore>) -> Option<LegacyView> {
    match store {
        Some(s) => Some(s@),
        None => None,
    }
}

/// The view of a large-file server that may be there.
pub open spec fn opt_lfs_remote_view(store: Option<LfsRemote>) -> Option<LfsRemoteView> {
    match store {
        Some(s) => Some(s@),
        None => None,
    }
}

impl View for FileStore {
    type V = FileStoreView;

    open spec fn view(&self) -> FileStoreView {
        FileStoreView {
            extstored_policy: self.extstored_policy,
            lfs_threshold_bytes: self.lfs_threshold_bytes,
            cache_to_local_cache: self.cache_to_local_cache,
            cache_to_memcache: self.cache_to_memcache,
            allow_writing_lfs_ptrs: self.allow_writing_lfs_ptrs,
            indexedlog_local: opt_log_view(self.indexedlog_local),
            lfs_local: opt_lfs_view(self.lfs_local),
            indexedlog_cache: opt_log_view(self.indexedlog_cache),
            lfs_cache: opt_lfs_view(self.lfs_cache),
            memcache: opt_memcache_view(self.memcache),
            lfs_remote: opt_lfs_remote_view(self.lfs_remote),
            edenapi: opt_edenapi_view(self.edenapi),
            contentstore: opt_contentstore_view(self.contentstore),
            fallbacks: self.fallbacks@,
            aux_local: opt_log_view(self.aux_local),
            aux_cache: opt_log_view(self.aux_cache),
        }
    }
}

impl FileStore {
    /// A store without any tier. Large-file pointers are ignored, nothing is
    /// written as a large file, and both caches would be filled if they
    /// were there.
    pub fn empty() -> (r: Self)
        ensures
            r@ == (FileStoreView {
                extstored_policy: ExtStoredPolicy::Ignore,
                lfs_threshold_bytes: None,
                cache_to_local_cache: true,
                cache_to_memcache: true,
                allow_writing_lfs_ptrs: false,
                indexedlog_local: None,
                lfs_local: None,
                indexedlog_cache: None,
                lfs_cache: None,
                memcache: None,
                lfs_remote: None,
                edenapi: None,
                contentstore: None,
                fallbacks: FallbackCounts {
                    fetch: 0,
                    fetch_miss: 0,
                    fetch_hit_ptr: 0,
                    fetch_hit_content: 0,
                    write_ptr: 0,
                },
                aux_local: None,
                aux_cache: None,
            }),
    {
        FileStore {
            extstored_policy: ExtStoredPolicy::Ignore,
            lfs_threshold_bytes: None,
            indexedlog_local: None,
            lfs_local: None,
            indexedlog_cache: None,
            lfs_cache: None,
            cache_to_local_cache: true,
            memcache: None,
            cache_to_memcache: true,
            allow_writing_lfs_ptrs: false,
            edenapi: None,
            lfs_remote: None,
            contentstore: None,
            fallbacks: ContentStoreFallbacks::new(),
            aux_local: None,
            aux_cache: None,
        }
    }

    /// The counts of legacy fallback use.
    pub fn fallbacks(&self) -> (r: ContentStoreFallbacks)
        ensures
            r@ == self@.fallbacks,
    {
        self.fallbacks
    }

    /// The store with only its tiers on local disk: the memory cache, the
    /// remote API, the large-file server and the legacy store are left
    /// behind.
    pub fn local(self) -> (r: Self)
        ensures
            r@ == self@.local(),
    {
        FileStore {
            extstored_policy: self.extstored_policy,
            lfs_threshold_bytes: self.lfs_threshold_bytes,
            indexedlog_local: self.indexedlog_local,
            lfs_local: self.lfs_local,
            indexedlog_cache: self.indexedlog_cache,
            lfs_cache: self.lfs_cache,
            cache_to_local_cache: self.cache_to_local_cache,
            memcache: None,
            cache_to_memcache: self.cache_to_memcache,
            allow_writing_lfs_ptrs: self.allow_writing_lfs_ptrs,
            edenapi: None,
            lfs_remote: None,
            contentstore: None,
            fallbacks: self.fallbacks,
            aux_local: self.aux_local,
            aux_cache: self.aux_cache,
        }
    }

    /// Asks the tiers on local disk, in their order.
    fn probe_disk(&self, state: &mut FetchState)
        requires
            old(state)@.inv(),
        ensures
            final(state)@ == self@.probe_disk(old(state)@),
            final(state)@.inv(),
    {
        proof {
            lemma_probe_disk_inv(self@, state@);
        }
        if let Some(aux_cache) = &self.aux_cache {
            state.fetch_aux_indexedlog(aux_cache);
        }
        if let Some(aux_local) = &self.aux_local {
            state.fetch_aux_indexedlog(aux_local);
        }
        if let Some(indexedlog_cache) = &self.indexedlog_cache {
            state.fetch_indexedlog(indexedlog_cache, LocalStoreType::Cache);
        }
        if let Some(indexedlog_local) = &self.indexedlog_local {
            state.fetch_indexedlog(indexedlog_local, LocalStoreType::Local);
        }
        if let Some(lfs_cache) = &self.lfs_cache {
            state.fetch_lfs(lfs_cache, LocalStoreType::Cache);
        }
        if let Some(lfs_local) = &self.lfs_local {
            state.fetch_lfs(lfs_local, LocalStoreType::Local);
        }
    }

    /// Asks the distributed memory cache and the remote API.
    fn probe_network(&self, state: &mut FetchState)
        requires
            old(state)@.inv(),
        ensures
            final(state)@ == self@.probe_network(old(state)@),
            final(state)@.inv(),
    {
        proof {
            lemma_probe_network_inv(self@, state@);
        }
        if let Some(memcache) = &self.memcache {
            state.fetch_memcache(memcache);
        }
        if let Some(edenapi) = &self.edenapi {
            state.fetch_edenapi(edenapi);
        }
    }

    /// Fetch the attributes `attrs` of `keys`.
    ///
    /// Every configured tier is asked, in a fixed order, for the keys it can
    /// still help with; what can be computed from what was found is
    /// computed; what came from slower tiers is written back to the caches;
    /// and every requested key comes back either complete, with every
    /// requested attribute, or incomplete, with the errors met for it.
    pub fn fetch(&mut self, keys: Vec<Key>, attrs: FileAttributes) -> (r: FileStoreFetch)
        ensures
            final(self)@ == old(self)@.after_fetch(keys_view(keys@), attrs),
            r@.complete.wf(),
            r@.incomplete.wf(),
            r@.complete.map == old(self)@.fetch_result(keys_view(keys@), attrs).complete,
            r@.incomplete.map == old(self)@.fetch_result(keys_view(keys@), attrs).incomplete,
            r@.other_errors == old(self)@.fetch_result(keys_view(keys@), attrs).other_errors,
            forall|k: KeyView|
                keys_view(keys@).contains(k) <==> (r@.complete.map.contains_key(k)
                    || r@.incomplete.map.contains_key(k)),
            forall|k: KeyView|
                !(r@.complete.map.contains_key(k) && r@.incomplete.map.contains_key(k)),
            forall|k: KeyView| #[trigger]
                r@.complete.map.contains_key(k) ==> r@.complete.map[k].attrs().spec_has(attrs),
    {
        let ghost kv = keys_view(keys@);
        let ghost before = self@;
        proof {
            lemma_fetch_partition(before, kv, attrs);
            lemma_derived_inv(before, kv, attrs);
        }
        let mut state = FetchState::new(keys, attrs, self.extstored_policy, self.fallbacks);
        self.probe_disk(&mut state);
        self.probe_network(&mut state);
        if let Some(lfs_remote) = &self.lfs_remote {
            state.fetch_lfs_remote(lfs_remote, &mut self.lfs_local, &mut self.lfs_cache);
        }
        if let Some(contentstore) = &self.contentstore {
            state.fetch_contentstore(contentstore);
        }
        proof {
            reveal(FileStoreView::probed);
            lemma_probe_remote_inv(before, before.probe_network(before.probe_disk(
                FetchModel::init(kv, attrs, before.extstored_policy, before.fallbacks),
            )));
            assert(state@ == before.probed(kv, attrs).0);
        }
        state.derive_computable();

        let mut indexedlog_cache = if self.cache_to_local_cache {
            self.indexedlog_cache.take()
        } else {
            None
        };
        let mut memcache = if self.cache_to_memcache {
            self.memcache.take()
        } else {
            None
        };
        state.write_to_cache(
            &mut indexedlog_cache,
            &mut memcache,
            &mut self.aux_cache,
            &mut self.aux_local,
        );
        if self.cache_to_local_cache {
            self.indexedlog_cache = indexedlog_cache;
        }
        if self.cache_to_memcache {
            self.memcache = memcache;
        }
        self.fallbacks = state.fallbacks();
        state.finish()
    }
}

/// Every requested key comes back complete, with every requested
/// attribute, or incomplete; never both; and no other key comes back.
pub proof fn lemma_fetch_partition(store: FileStoreView, keys: Seq<KeyView>, attrs: FileAttributes)
    ensures
        forall|k: KeyView|
            keys.contains(k) <==> (store.fetch_result(keys, attrs).complete.contains_key(k)
                || store.fetch_result(keys, attrs).incomplete.contains_key(k)),
        forall|k: KeyView|
            !(store.fetch_result(keys, attrs).complete.contains_key(k) && store.fetch_result(
                keys,
                attrs,
            ).incomplete.contains_key(k)),
        forall|k: KeyView| #[trigger]
            store.fetch_result(keys, attrs).complete.contains_key(k) ==> store.fetch_result(
                keys,
                attrs,
            ).complete[k].attrs().spec_has(attrs),
{
    lemma_derived_inv(store, keys, attrs);
    let s = store.derived(keys, attrs).written();
    lemma_finish_partition(s);
    assert forall|k: KeyView|
        keys.contains(k) <==> (s.finish().complete.contains_key(k)
            || s.finish().incomplete.contains_key(k)) by {
        assert(s.requested(k) <==> keys.contains(k));
    }
}

} // verus!
