//! The fetch orchestrator's state, and the events that drive it.
//!
//! A `FetchState` is created for one request. Each tier is asked for the
//! keys that `pending_all`, `pending_nonlfs` or `pending_storekey` name,
//! and what the tier answers is handed to a `found_*` method. Every method
//! is proved to take the state's view, a [`FetchModel`], to the model that
//! the corresponding function of the model gives.

use crate::assoc::{AssocMap, KeySet};
use crate::attrs::FileAttributes;
use crate::codec::{aux_from_bytes, pointer_from_entry};
use crate::error::StoreError;
use crate::file::{LazyFile, StoreFile};
use crate::keys::{keys_view, Key, KeyView, Sha256};
use crate::model::{
    bump, lemma_found_attributes_inv, lemma_found_aux_indexedlog_inv,
    lemma_found_contentstore_inv, lemma_found_edenapi_inv, lemma_found_indexedlog_inv,
    lemma_found_lfs_inv, lemma_found_memcache_inv, lemma_found_pointer_inv, lemma_init_inv,
    lemma_keyed_error_inv, lemma_other_error_inv, lemma_queryable, seq_dedup, FallbackCounts,
    FetchModel,
};
use crate::types::{
    storekeys_view, Entry, ExtStoredPolicy, FileEntry, LfsPointersEntry, LfsStoreEntry,
    LocalStoreType, McData, Metadata, StoreKey,
};
use vstd::prelude::*;

pub mod wrapup;

verus! {

/// Counts how often the legacy fallback store was asked, and what came of
/// it. Each counter stops at the largest value it can hold.
#[derive(Clone, Copy, Debug)]
pub struct ContentStoreFallbacks {
    counts: FallbackCounts,
}

impl View for ContentStoreFallbacks {
    type V = FallbackCounts;

    closed spec fn view(&self) -> FallbackCounts {
        self.counts
    }
}

fn bumped(n: u64) -> (r: u64)
    ensures
        r == bump(n),
{
    if n < u64::MAX {
        n + 1
    } else {
        n
    }
}

impl ContentStoreFallbacks {
    /// All counters at zero.
    pub fn new() -> (r: Self)
        ensures
            r@ == (FallbackCounts {
                fetch: 0,
                fetch_miss: 0,
                fetch_hit_ptr: 0,
                fetch_hit_content: 0,
                write_ptr: 0,
            }),
    {
        ContentStoreFallbacks {
            counts: FallbackCounts {
                fetch: 0,
                fetch_miss: 0,
                fetch_hit_ptr: 0,
                fetch_hit_content: 0,
                write_ptr: 0,
            },
        }
    }

    /// The legacy store was asked for a key.
    pub fn fetch(&mut self, _key: &Key)
        ensures
            final(self)@ == (FallbackCounts { fetch: bump(old(self)@.fetch), ..old(self)@ }),
    {
        self.counts.fetch = bumped(self.counts.fetch);
    }

    /// The legacy store did not have the key.
    pub fn fetch_miss(&mut self, _key: &Key)
        ensures
            final(self)@ == (FallbackCounts {
                fetch_miss: bump(old(self)@.fetch_miss),
                ..old(self)@
            }),
    {
        self.counts.fetch_miss = bumped(self.counts.fetch_miss);
    }

    /// The legacy store answered with a large-file pointer.
    pub fn fetch_hit_ptr(&mut self, _key: &Key)
        ensures
            final(self)@ == (FallbackCounts {
                fetch_hit_ptr: bump(old(self)@.fetch_hit_ptr),
                ..old(self)@
            }),
    {
        self.counts.fetch_hit_ptr = bumped(self.counts.fetch_hit_ptr);
    }

    /// The legacy store answered with content.
    pub fn fetch_hit_content(&mut self, _key: &Key)
        ensures
            final(self)@ == (FallbackCounts {
                fetch_hit_content: bump(old(self)@.fetch_hit_content),
                ..old(self)@
            }),
    {
        self.counts.fetch_hit_content = bumped(self.counts.fetch_hit_content);
    }

    /// A large-file pointer was written through the legacy store.
    pub fn write_ptr(&mut self, _key: &Key)
        ensures
            final(self)@ == (FallbackCounts {
                write_ptr: bump(old(self)@.write_ptr),
                ..old(self)@
            }),
    {
        self.counts.write_ptr = bumped(self.counts.write_ptr);
    }

    /// How often the legacy store was asked.
    pub fn fetch_count(&self) -> (r: u64)
        ensures
            r == self@.fetch,
    {
        self.counts.fetch
    }

    /// How often the legacy store did not have the key.
    pub fn fetch_miss_count(&self) -> (r: u64)
        ensures
            r == self@.fetch_miss,
    {
        self.counts.fetch_miss
    }

    /// How often the legacy store answered with a large-file pointer.
    pub fn fetch_hit_ptr_count(&self) -> (r: u64)
        ensures
            r == self@.fetch_hit_ptr,
    {
        self.counts.fetch_hit_ptr
    }

    /// How often the legacy store answered with content.
    pub fn fetch_hit_content_count(&self) -> (r: u64)
        ensures
            r == self@.fetch_hit_content,
    {
        self.counts.fetch_hit_content
    }

    /// How often a large-file pointer was written through the legacy store.
    pub fn write_ptr_count(&self) -> (r: u64)
        ensures
            r == self@.write_ptr,
    {
        self.counts.write_ptr
    }
}

/// The errors met during a fetch.
pub struct FetchErrors {
    /// Errors encountered for specific keys.
    fetch_errors: AssocMap<Key, Vec<StoreError>>,
    /// Errors encountered that don't apply to a single key.
    other_errors: Vec<StoreError>,
}

impl FetchErrors {
    /// The errors recorded for single keys.
    pub closed spec fn keyed(&self) -> crate::assoc::OrdMap<KeyView, Seq<StoreError>> {
        self.fetch_errors@
    }

    /// The errors that belong to no single key.
    pub closed spec fn other(&self) -> Seq<StoreError> {
        self.other_errors@
    }

    /// No errors.
    pub fn new() -> (r: Self)
        ensures
            r.keyed() == crate::assoc::OrdMap::<KeyView, Seq<StoreError>>::empty(),
            r.other() == Seq::<StoreError>::empty(),
    {
        FetchErrors { fetch_errors: AssocMap::new(), other_errors: Vec::new() }
    }

    /// Records `err` for `key`, after the errors already recorded for it.
    pub fn keyed_error(&mut self, key: Key, err: StoreError)
        ensures
            final(self).keyed() == old(self).keyed().insert(
                key@,
                (match old(self).keyed().get(key@) {
                    Some(errs) => errs,
                    None => Seq::empty(),
                }).push(err),
            ),
            final(self).other() == old(self).other(),
    {
        let before = self.fetch_errors.insert(key.clone(), Vec::new());
        let mut errs = match before {
            Some(errs) => errs,
            None => Vec::new(),
        };
        errs.push(err);
        let placeholder = self.fetch_errors.insert(key, errs);
        proof {
            let target = old(self).keyed().insert(
                key@,
                (match old(self).keyed().get(key@) {
                    Some(errs) => errs,
                    None => Seq::empty(),
                }).push(err),
            );
            assert(self.keyed().map =~= target.map);
        }
    }

    /// Records an error that belongs to no single key.
    pub fn other_error(&mut self, err: StoreError)
        ensures
            final(self).keyed() == old(self).keyed(),
            final(self).other() == old(self).other().push(err),
    {
        self.other_errors.push(err);
    }
}

/// The state of one fetch.
pub struct FetchState {
    /// Requested keys for which at least some attributes haven't been found.
    pending: KeySet<Key>,
    /// Which attributes were requested.
    request_attrs: FileAttributes,
    /// All attributes which have been found so far.
    found: AssocMap<Key, StoreFile>,
    /// Large-file pointers discovered for requested keys.
    lfs_pointers: AssocMap<Key, LfsPointersEntry>,
    /// Whether each discovered pointer came from a local-only or a cache tier.
    pointer_origin: AssocMap<Sha256, LocalStoreType>,
    /// Whether each key is local-only or cached, so that computed auxiliary
    /// data can be written to the matching store.
    key_origin: AssocMap<Key, LocalStoreType>,
    /// Errors encountered during fetching.
    errors: FetchErrors,
    /// File content found in the memory cache, which may be cached locally.
    found_in_memcache: KeySet<Key>,
    /// Attributes found in the remote API, which may be cached locally.
    found_in_edenapi: KeySet<Key>,
    /// Attributes computed from other attributes, which may be cached locally.
    computed_aux_data: AssocMap<Key, LocalStoreType>,
    /// Counts of legacy fallback use.
    fallbacks: ContentStoreFallbacks,
    extstored_policy: ExtStoredPolicy,
    compute_aux_data: bool,
}

impl View for FetchState {
    type V = FetchModel;

    closed spec fn view(&self) -> FetchModel {
        FetchModel {
            pending: self.pending@,
            request_attrs: self.request_attrs,
            found: self.found@,
            lfs_pointers: self.lfs_pointers@,
            pointer_origin: self.pointer_origin@,
            key_origin: self.key_origin@,
            fetch_errors: self.errors.keyed(),
            other_errors: self.errors.other(),
            found_in_memcache: self.found_in_memcache@,
            found_in_edenapi: self.found_in_edenapi@,
            computed_aux_data: self.computed_aux_data@,
            fallbacks: self.fallbacks@,
            extstored_policy: self.extstored_policy,
            compute_aux_data: self.compute_aux_data,
        }
    }
}

/// Filtering one more element: it is kept or dropped as the predicate says.
pub proof fn lemma_filter_step<A>(s: Seq<A>, pred: spec_fn(A) -> bool, i: int)
    requires
        0 <= i < s.len(),
    ensures
        s.subrange(0, i + 1).filter(pred) == if pred(s[i]) {
            s.subrange(0, i).filter(pred).push(s[i])
        } else {
            s.subrange(0, i).filter(pred)
        },
{
    reveal(Seq::filter);
    assert(s.subrange(0, i + 1).drop_last() =~= s.subrange(0, i));
}

impl FetchState {
    /// The state at the start of a request for `keys` and `attrs`.
    pub fn new(
        keys: Vec<Key>,
        attrs: FileAttributes,
        extstored_policy: ExtStoredPolicy,
        fallbacks: ContentStoreFallbacks,
    ) -> (r: Self)
        ensures
            r@ == FetchModel::init(keys_view(keys@), attrs, extstored_policy, fallbacks@),
            r@.inv(),
    {
        let mut pending: KeySet<Key> = KeySet::new();
        let mut keys = keys;
        let ghost all = keys_view(keys@);
        let mut i: usize = 0;
        let n = keys.len();
        while i < n
            invariant
                i <= n,
                n == keys@.len(),
                all == keys_view(keys@),
                pending@ == seq_dedup(all.subrange(0, i as int)),
            decreases n - i,
        {
            let k = keys[i].clone();
            proof {
                assert(all.subrange(0, i + 1).drop_last() =~= all.subrange(0, i as int));
                assert(all.subrange(0, i + 1).last() == k@);
            }
            pending.insert(k);
            i += 1;
        }
        proof {
            assert(all.subrange(0, n as int) =~= all);
            lemma_init_inv(all, attrs, extstored_policy, fallbacks@);
        }
        FetchState {
            pending,
            request_attrs: attrs,
            found: AssocMap::new(),
            lfs_pointers: AssocMap::new(),
            key_origin: AssocMap::new(),
            pointer_origin: AssocMap::new(),
            errors: FetchErrors::new(),
            found_in_memcache: KeySet::new(),
            found_in_edenapi: KeySet::new(),
            computed_aux_data: AssocMap::new(),
            fallbacks,
            extstored_policy,
            compute_aux_data: true,
        }
    }

    /// True when the request is about `key`.
    pub fn is_requested(&self, key: &Key) -> (r: bool)
        ensures
            r == self@.requested(key@),
    {
        self.pending.contains(key) || self.found.contains_key(key)
    }

    /// A key is pending with respect to a store if we can make progress on
    /// it by requesting from that store.
    pub fn pending(&self, key: &Key, fetchable: FileAttributes) -> (r: bool)
        ensures
            r == self@.actionable(key@, fetchable),
    {
        if fetchable.none() {
            return false;
        }
        let available = match self.found.get(key) {
            Some(f) => f.attrs(),
            None => FileAttributes::empty(),
        };
        let (available, fetchable) = if self.compute_aux_data {
            (available.with_computable(), fetchable.with_computable())
        } else {
            (available, fetchable)
        };
        let missing = self.request_attrs - available;
        let actionable = missing & fetchable;
        actionable.any()
    }

    /// Return all incomplete requested keys for which additional attributes
    /// may be gathered by querying a store which provides the specified
    /// attributes.
    pub fn pending_all(&self, fetchable: FileAttributes) -> (r: Vec<Key>)
        ensures
            keys_view(r@) == self@.pending_all(fetchable),
    {
        let mut out: Vec<Key> = Vec::new();
        let n = self.pending.len();
        let ghost pred = |k: KeyView| self@.actionable(k, fetchable);
        let mut i: usize = 0;
        while i < n
            invariant
                i <= n,
                n == self.pending@.len(),
                pred == (|k: KeyView| self@.actionable(k, fetchable)),
                keys_view(out@) == self.pending@.subrange(0, i as int).filter(pred),
            decreases n - i,
        {
            let k = self.pending.key_at(i);
            proof {
                lemma_filter_step(self.pending@, pred, i as int);
            }
            if self.pending(k, fetchable) {
                let ghost before = out@;
                out.push(k.clone());
                assert(keys_view(out@) =~= keys_view(before).push(k@));
            }
            i += 1;
        }
        proof {
            assert(self.pending@.subrange(0, n as int) =~= self.pending@);
        }
        out
    }

    /// Returns all incomplete requested keys for which we haven't discovered
    /// a large-file pointer, and for which additional attributes may be
    /// gathered by querying a store which provides the specified attributes.
    pub fn pending_nonlfs(&self, fetchable: FileAttributes) -> (r: Vec<Key>)
        ensures
            keys_view(r@) == self@.pending_nonlfs(fetchable),
    {
        let mut out: Vec<Key> = Vec::new();
        let n = self.pending.len();
        let ghost pred = |k: KeyView|
            !self@.lfs_pointers.contains_key(k) && self@.actionable(k, fetchable);
        let mut i: usize = 0;
        while i < n
            invariant
                i <= n,
                n == self.pending@.len(),
                pred == (|k: KeyView|
                    !self@.lfs_pointers.contains_key(k) && self@.actionable(k, fetchable)),
                keys_view(out@) == self.pending@.subrange(0, i as int).filter(pred),
            decreases n - i,
        {
            let k = self.pending.key_at(i);
            proof {
                lemma_filter_step(self.pending@, pred, i as int);
            }
            if !self.lfs_pointers.contains_key(k) && self.pending(k, fetchable) {
                let ghost before = out@;
                out.push(k.clone());
                assert(keys_view(out@) =~= keys_view(before).push(k@));
            }
            i += 1;
        }
        proof {
            assert(self.pending@.subrange(0, n as int) =~= self.pending@);
        }
        out
    }

    /// Returns the key as a store key: by content hash where a pointer is
    /// known for it, by key otherwise. Every store key returned has a key
    /// inside.
    pub fn storekey(&self, key: &Key) -> (r: StoreKey)
        ensures
            r@ == self@.storekey(key@),
            r@.maybe_key() == Some(key@),
    {
        match self.lfs_pointers.get(key) {
            Some(ptr) => StoreKey::Content(ptr.sha256(), Some(key.clone())),
            None => StoreKey::HgId(key.clone()),
        }
    }

    /// Returns all incomplete requested keys as store keys, for which
    /// additional attributes may be gathered by querying a store which
    /// provides the specified attributes.
    pub fn pending_storekey(&self, fetchable: FileAttributes) -> (r: Vec<StoreKey>)
        ensures
            storekeys_view(r@) == self@.pending_storekey(fetchable),
    {
        let keys = self.pending_all(fetchable);
        let mut out: Vec<StoreKey> = Vec::new();
        let mut i: usize = 0;
        while i < keys.len()
            invariant
                i <= keys@.len(),
                keys_view(keys@) == self@.pending_all(fetchable),
                storekeys_view(out@) == self@.pending_storekey(fetchable).subrange(0, i as int),
            decreases keys@.len() - i,
        {
            let ghost before = out@;
            out.push(self.storekey(&keys[i]));
            proof {
                let target = self@.pending_storekey(fetchable);
                assert(keys_view(keys@)[i as int] == keys@[i as int]@);
                assert(keys_view(keys@).len() == keys@.len());
                assert(target[i as int] == self@.storekey(keys@[i as int]@));
                assert(storekeys_view(out@) =~= storekeys_view(before).push(out@[i as int]@));
                assert(storekeys_view(out@) =~= target.subrange(0, i + 1));
            }
            i += 1;
        }
        proof {
            assert(keys_view(keys@).len() == keys@.len());
            assert(self@.pending_storekey(fetchable).subrange(0, keys@.len() as int)
                =~= self@.pending_storekey(fetchable));
        }
        out
    }

    /// Marks `key` complete.
    pub fn mark_complete(&mut self, key: &Key)
        ensures
            final(self)@ == old(self)@.mark_complete(key@),
    {
        self.pending.remove(key);
        if let Some(ptr) = self.lfs_pointers.remove(key) {
            self.pointer_origin.remove(&ptr.sha256());
        }
    }

    /// Records a large-file pointer found for `key` in a tier of kind `typ`.
    pub fn found_pointer(&mut self, key: Key, ptr: LfsPointersEntry, typ: LocalStoreType)
        ensures
            final(self)@ == old(self)@.found_pointer(key@, ptr, typ),
            old(self)@.inv() ==> final(self)@.inv(),
    {
        proof {
            if self@.inv() {
                lemma_found_pointer_inv(self@, key@, ptr, typ);
            }
        }
        let sha256 = ptr.sha256();
        // Overwrite Local with Cache, but not vice versa.
        match typ {
            LocalStoreType::Cache => {
                self.pointer_origin.insert(sha256, typ);
            },
            LocalStoreType::Local => {
                if !self.pointer_origin.contains_key(&sha256) {
                    self.pointer_origin.insert(sha256, typ);
                }
            },
        }
        self.lfs_pointers.insert(key, ptr);
    }

    /// Records attributes found for `key`, merging them into what was found
    /// before, and marks the key complete once the request is covered.
    pub fn found_attributes(&mut self, key: Key, sf: StoreFile, typ: Option<LocalStoreType>)
        ensures
            final(self)@ == old(self)@.found_attributes(key@, sf@, typ),
            old(self)@.inv() && old(self)@.requested(key@) ==> final(self)@.inv(),
    {
        proof {
            if self@.inv() && self@.requested(key@) {
                lemma_found_attributes_inv(self@, key@, sf@, typ);
            }
        }
        let origin = match typ {
            Some(t) => t,
            None => LocalStoreType::Cache,
        };
        self.key_origin.insert(key.clone(), origin);
        let before = self.found.insert(key.clone(), StoreFile::empty());
        // Combine the existing and newly-found attributes, overwriting
        // existing attributes with the new ones.
        let merged = match before {
            Some(available) => sf | available,
            None => sf,
        };
        let complete = merged.attrs().has(self.request_attrs);
        let ghost merged_view = merged@;
        self.found.insert(key.clone(), merged);
        proof {
            assert(self.found@.map =~= old(self)@.found.insert(key@, merged_view).map);
        }
        if complete {
            self.mark_complete(&key);
        }
    }

    /// Records an error for the single key `key`.
    pub fn keyed_error(&mut self, key: Key, err: StoreError)
        ensures
            final(self)@ == old(self)@.keyed_error(key@, err),
            old(self)@.inv() && old(self)@.requested(key@) ==> final(self)@.inv(),
    {
        proof {
            if self@.inv() && self@.requested(key@) {
                lemma_keyed_error_inv(self@, key@, err);
            }
        }
        self.errors.keyed_error(key, err);
    }

    /// Records an error that belongs to no single key.
    pub fn other_error(&mut self, err: StoreError)
        ensures
            final(self)@ == old(self)@.other_error(err),
            old(self)@.inv() ==> final(self)@.inv(),
    {
        proof {
            if self@.inv() {
                lemma_other_error_inv(self@, err);
            }
        }
        self.errors.other_error(err);
    }
}

impl FetchState {
    /// The attributes that were requested.
    pub fn request_attrs(&self) -> (r: FileAttributes)
        ensures
            r == self@.request_attrs,
    {
        self.request_attrs
    }

    /// The counts of legacy fallback use.
    pub fn fallbacks(&self) -> (r: ContentStoreFallbacks)
        ensures
            r@ == self@.fallbacks,
    {
        self.fallbacks
    }

    /// Handles an entry that an indexed log of kind `typ` holds for `key`.
    pub fn found_indexedlog(&mut self, key: Key, entry: Entry, typ: LocalStoreType)
        ensures
            final(self)@ == old(self)@.found_indexedlog(key@, entry@, typ),
            old(self)@.inv() && old(self)@.requested(key@) ==> final(self)@.inv(),
    {
        proof {
            if self@.inv() && self@.requested(key@) {
                lemma_found_indexedlog_inv(self@, key@, entry@, typ);
            }
        }
        if entry.metadata().is_lfs() {
            if self.extstored_policy == ExtStoredPolicy::Use {
                match pointer_from_entry(&entry) {
                    Ok(ptr) => self.found_pointer(key, ptr, typ),
                    Err(err) => self.keyed_error(key, err),
                }
            }
        } else {
            self.found_attributes(key, StoreFile::from(LazyFile::IndexedLog(entry)), Some(typ))
        }
    }

    /// Handles an entry that an auxiliary-data log holds for `key`. Fails,
    /// changing nothing, when the entry does not parse.
    pub fn found_aux_indexedlog(&mut self, key: Key, entry: Entry) -> (r: Result<(), StoreError>)
        ensures
            match r {
                Ok(()) => old(self)@.found_aux_indexedlog(key@, entry@) == Some(final(self)@),
                Err(e) => old(self)@.found_aux_indexedlog(key@, entry@) is None && final(self)@
                    == old(self)@ && e == StoreError::MalformedAuxData,
            },
            old(self)@.inv() && old(self)@.requested(key@) ==> final(self)@.inv(),
    {
        proof {
            if self@.inv() && self@.requested(key@) && self@.found_aux_indexedlog(key@, entry@) is Some {
                lemma_found_aux_indexedlog_inv(self@, key@, entry@);
            }
        }
        match aux_from_bytes(entry.content().as_slice()) {
            Ok(aux_data) => {
                self.found_attributes(key, StoreFile::from(aux_data), None);
                Ok(())
            },
            Err(e) => Err(e),
        }
    }

    /// Handles what a large-file tier of kind `typ` knows of `key`.
    pub fn found_lfs(&mut self, key: Key, entry: LfsStoreEntry, typ: LocalStoreType)
        ensures
            final(self)@ == old(self)@.found_lfs(key@, entry@, typ),
            old(self)@.inv() && old(self)@.requested(key@) ==> final(self)@.inv(),
    {
        proof {
            if self@.inv() && self@.requested(key@) {
                lemma_found_lfs_inv(self@, key@, entry@, typ);
            }
        }
        match entry {
            LfsStoreEntry::PointerAndBlob(ptr, blob) => {
                self.found_attributes(key, StoreFile::from(LazyFile::Lfs(blob, ptr)), Some(typ))
            },
            LfsStoreEntry::PointerOnly(ptr) => self.found_pointer(key, ptr, typ),
        }
    }

    /// Handles an entry that the distributed memory cache delivered.
    pub fn found_memcache(&mut self, entry: McData)
        ensures
            final(self)@ == old(self)@.found_memcache(entry@),
            old(self)@.inv() && old(self)@.queryable(entry@.key) ==> final(self)@.inv(),
    {
        proof {
            if self@.inv() && self@.queryable(entry@.key) {
                lemma_queryable(self@, entry@.key);
                lemma_found_memcache_inv(self@, entry@);
            }
        }
        let key = entry.key().clone();
        if entry.metadata().is_lfs() {
            if self.extstored_policy == ExtStoredPolicy::Use {
                match pointer_from_entry(&entry) {
                    Ok(ptr) => self.found_pointer(key, ptr, LocalStoreType::Cache),
                    Err(err) => self.keyed_error(key, err),
                }
            }
        } else {
            self.found_in_memcache.insert(key.clone());
            self.found_attributes(key, StoreFile::from(LazyFile::Memcache(entry)), None);
        }
    }

    /// Handles an entry that the remote API delivered.
    pub fn found_edenapi(&mut self, entry: FileEntry)
        ensures
            final(self)@ == old(self)@.found_edenapi(entry@),
            old(self)@.inv() && old(self)@.queryable(entry@.key) ==> final(self)@.inv(),
    {
        proof {
            if self@.inv() && self@.queryable(entry@.key) {
                lemma_queryable(self@, entry@.key);
                lemma_found_edenapi_inv(self@, entry@);
            }
        }
        let key = entry.key().clone();
        if entry.metadata().is_lfs() {
            if self.extstored_policy == ExtStoredPolicy::Use {
                match pointer_from_entry(&entry) {
                    Ok(ptr) => self.found_pointer(key, ptr, LocalStoreType::Cache),
                    Err(err) => self.keyed_error(key, err),
                }
            }
        } else {
            self.found_in_edenapi.insert(key.clone());
            self.found_attributes(key, StoreFile::from(LazyFile::EdenApi(entry)), None);
        }
    }

    /// Handles what the legacy store delivered for `key`.
    pub fn found_contentstore(&mut self, key: Key, bytes: Vec<u8>, meta: Metadata)
        ensures
            final(self)@ == old(self)@.found_contentstore(key@, bytes@, meta),
            old(self)@.inv() && old(self)@.requested(key@) ==> final(self)@.inv(),
    {
        proof {
            if self@.inv() && self@.requested(key@) {
                lemma_found_contentstore_inv(self@, key@, bytes@, meta);
            }
        }
        if meta.is_lfs() {
            // The caller is not shown large-file pointers; the hit is only
            // counted.
            self.fallbacks.fetch_hit_ptr(&key);
        } else {
            self.fallbacks.fetch_hit_content(&key);
            self.found_attributes(key, StoreFile::from(LazyFile::ContentStore(bytes, meta)), None)
        }
    }

    /// Counts one question put to the legacy store.
    pub fn count_fallback_fetch(&mut self, key: &Key)
        ensures
            final(self)@ == (FetchModel {
                fallbacks: FallbackCounts {
                    fetch: bump(old(self)@.fallbacks.fetch),
                    ..old(self)@.fallbacks
                },
                ..old(self)@
            }),
            old(self)@.inv() ==> final(self)@.inv(),
    {
        self.fallbacks.fetch(key);
    }

    /// Counts one miss of the legacy store.
    pub fn count_fallback_miss(&mut self, key: &Key)
        ensures
            final(self)@ == (FetchModel {
                fallbacks: FallbackCounts {
                    fetch_miss: bump(old(self)@.fallbacks.fetch_miss),
                    ..old(self)@.fallbacks
                },
                ..old(self)@
            }),
            old(self)@.inv() ==> final(self)@.inv(),
    {
        self.fallbacks.fetch_miss(key);
    }
}

} // verus!
