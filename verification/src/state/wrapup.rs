//! The last steps of a fetch: deriving what can be computed, writing back
//! to warmer tiers, and handing out the result.

use crate::after::{
    add_opt, lemma_derive_computable_inv, lemma_derive_step_inv, put_opt, CacheTiers,
};
use crate::assoc::{AssocMap, KeySet};
use crate::codec::aux_to_bytes;
use crate::file::StoreFile;
use crate::keys::{Key, KeyView, MapKey, Sha256};
use crate::model::{seq_dedup, FetchModel};
use crate::result::FileStoreFetch;
use crate::state::FetchState;
use crate::stores::{IndexedLogHgIdDataStore, IndexedLogView, MemcacheStore, RemoteView};
use crate::types::{Entry, LocalStoreType, Metadata};
use vstd::prelude::*;

verus! {

/// The view of an indexed log that may be there.
pub open spec fn opt_log_view(log: Option<IndexedLogHgIdDataStore>) -> Option<IndexedLogView> {
    match log {
        Some(l) => Some(l@),
        None => None,
    }
}

/// The view of a memory cache that may be there.
pub open spec fn opt_memcache_view(cache: Option<MemcacheStore>) -> Option<RemoteView> {
    match cache {
        Some(c) => Some(c@),
        None => None,
    }
}

/// Writes `entry` to the log, if there is one. A log that refuses the write
/// is left as it is.
pub fn put_if_some(log: &mut Option<IndexedLogHgIdDataStore>, entry: Entry)
    ensures
        opt_log_view(*final(log)) == put_opt(opt_log_view(*old(log)), entry@),
{
    match log.take() {
        Some(mut l) => {
            let _ = l.put_entry(entry);
            *log = Some(l);
        },
        None => {},
    }
}

/// Hands `entry` to the memory cache, if there is one.
pub fn add_if_some(cache: &mut Option<MemcacheStore>, entry: Entry)
    ensures
        opt_memcache_view(*final(cache)) == add_opt(opt_memcache_view(*old(cache)), entry@),
{
    match cache.take() {
        Some(mut c) => {
            c.add_mcdata(entry);
            *cache = Some(c);
        },
        None => {},
    }
}

impl FetchModel {
    /// The content hashes and sizes of the pointers that were discovered,
    /// each once, in the order of discovery.
    pub open spec fn lfs_objects(self) -> Seq<(Sha256, u64)> {
        seq_dedup(
            Seq::new(
                self.lfs_pointers.keys.len(),
                |i: int|
                    (
                        self.lfs_pointers.map[self.lfs_pointers.keys[i]].sha256,
                        self.lfs_pointers.map[self.lfs_pointers.keys[i]].size,
                    ),
            ),
        )
    }
}

fn objects_contain(objs: &Vec<(Sha256, u64)>, hash: &Sha256, size: u64) -> (r: bool)
    ensures
        r == objs@.contains((*hash, size)),
{
    let mut i: usize = 0;
    while i < objs.len()
        invariant
            i <= objs@.len(),
            forall|j: int| 0 <= j < i ==> objs@[j] != (*hash, size),
        decreases objs@.len() - i,
    {
        if objs[i].0.same_key(hash) && objs[i].1 == size {
            return true;
        }
        i += 1;
    }
    false
}

impl FetchState {
    /// The content hashes and sizes of the pointers that were discovered.
    pub fn lfs_objects(&self) -> (r: Vec<(Sha256, u64)>)
        ensures
            r@ == self@.lfs_objects(),
    {
        let n = self.lfs_pointers.len();
        let ghost all = Seq::new(
            self@.lfs_pointers.keys.len(),
            |i: int|
                (
                    self@.lfs_pointers.map[self@.lfs_pointers.keys[i]].sha256,
                    self@.lfs_pointers.map[self@.lfs_pointers.keys[i]].size,
                ),
        );
        let mut out: Vec<(Sha256, u64)> = Vec::new();
        let mut i: usize = 0;
        while i < n
            invariant
                i <= n,
                n == self@.lfs_pointers.keys.len(),
                all.len() == n,
                forall|j: int|
                    0 <= j < n ==> all[j] == (
                        self@.lfs_pointers.map[self@.lfs_pointers.keys[j]].sha256,
                        self@.lfs_pointers.map[self@.lfs_pointers.keys[j]].size,
                    ),
                out@ == seq_dedup(all.subrange(0, i as int)),
            decreases n - i,
        {
            let ptr = self.lfs_pointers.value_at(i);
            proof {
                assert(all.subrange(0, i + 1).drop_last() =~= all.subrange(0, i as int));
                assert(all.subrange(0, i + 1).last() == (ptr.sha256, ptr.size));
            }
            if !objects_contain(&out, &ptr.sha256, ptr.size) {
                out.push((ptr.sha256, ptr.size));
            }
            i += 1;
        }
        proof {
            assert(all.subrange(0, n as int) =~= all);
        }
        out
    }

    /// How many keys are still pending.
    pub fn pending_count(&self) -> (r: usize)
        ensures
            r == self@.pending.len(),
    {
        self.pending.len()
    }

    /// How many finds wait to be written back: content that the remote API
    /// delivered, content that the memory cache delivered, and auxiliary
    /// data that was computed.
    pub fn writeback_counts(&self) -> (r: (usize, usize, usize))
        ensures
            r.0 == self@.found_in_edenapi.len(),
            r.1 == self@.found_in_memcache.len(),
            r.2 == self@.computed_aux_data.keys.len(),
    {
        (self.found_in_edenapi.len(), self.found_in_memcache.len(), self.computed_aux_data.len())
    }

    /// The kind of tier in which a pointer to `hash` was found.
    pub fn pointer_origin_of(&self, hash: &Sha256) -> (r: Option<LocalStoreType>)
        ensures
            r == self@.pointer_origin.get(*hash),
    {
        match self.pointer_origin.get(hash) {
            Some(t) => Some(*t),
            None => None,
        }
    }

    /// Computes the attributes that are requested, missing, and computable
    /// from attributes that were found, and marks complete the keys that
    /// this completes.
    pub fn derive_computable(&mut self)
        requires
            old(self)@.inv(),
        ensures
            final(self)@ == old(self)@.derive_computable(),
            final(self)@.inv(),
            final(self)@.same_request(old(self)@),
    {
        proof {
            lemma_derive_computable_inv(self@);
        }
        if !self.compute_aux_data {
            return;
        }
        let n = self.found.len();
        let ghost start = self@;
        let ghost keys = self@.found.keys;
        let mut i: usize = 0;
        while i < n
            invariant
                i <= n,
                n == keys.len(),
                keys == start.found.keys,
                self@.found.keys == keys,
                self@.inv(),
                self@ == start.derive_keys(keys.subrange(0, i as int)),
            decreases n - i,
        {
            let key = self.found.key_at(i).clone();
            proof {
                lemma_derive_step_inv(self@, key@);
                assert(keys.subrange(0, i + 1).drop_last() =~= keys.subrange(0, i as int));
                assert(keys.subrange(0, i + 1).last() == key@);
            }
            let ghost before = self@;
            let attrs = self.found.value_at(i).attrs();
            let missing = self.request_attrs - attrs;
            let actionable = attrs.with_computable() & missing;
            if actionable.aux_data {
                let taken = self.found.insert(key.clone(), StoreFile::empty());
                let origin = match self.key_origin.get(&key) {
                    Some(o) => *o,
                    None => LocalStoreType::Cache,
                };
                let mut value = match taken {
                    Some(v) => v,
                    None => StoreFile::empty(),
                };
                match value.compute_aux_data() {
                    Ok(()) => {
                        self.computed_aux_data.insert(key.clone(), origin);
                    },
                    Err(err) => {
                        self.errors.keyed_error(key.clone(), err);
                    },
                }
                let ghost value_view = value@;
                self.found.insert(key.clone(), value);
                proof {
                    assert(self.found@.map =~= before.found.insert(key@, value_view).map);
                }
            }
            proof {
                let s1 = if before.derives_aux(key@) {
                    FetchModel {
                        found: before.found.insert(
                            key@,
                            before.found.map[key@].with_computed_aux(),
                        ),
                        computed_aux_data: before.computed_aux_data.insert(
                            key@,
                            before.key_origin.map[key@],
                        ),
                        ..before
                    }
                } else {
                    before
                };
                assert(actionable.aux_data == before.derives_aux(key@));
                assert(before.found.keys.contains(key@));
                assert(before.found.contains_key(key@));
                assert(before.key_origin.contains_key(key@));
                assert(self@.found == s1.found);
                assert(self@.computed_aux_data == s1.computed_aux_data);
                assert(self@.fetch_errors == s1.fetch_errors);
                assert(self@ == s1);
            }
            // Mark complete if applicable.
            let done = match self.found.get(&key) {
                Some(v) => v.attrs().has(self.request_attrs),
                None => false,
            };
            if done {
                self.mark_complete(&key);
            }
            proof {
                assert(self@ == before.derive_step(key@));
            }
            i += 1;
        }
        proof {
            assert(keys.subrange(0, n as int) =~= keys);
        }
    }

    /// Writes what this fetch brought from slower tiers to the faster tiers
    /// that are given: content from the remote API to the memory cache and
    /// the indexed-log cache, content from the memory cache to the
    /// indexed-log cache, and computed auxiliary data to the auxiliary-data
    /// tier of the kind recorded for its key. A write that a tier refuses is
    /// dropped.
    pub fn write_to_cache(
        &mut self,
        indexedlog_cache: &mut Option<IndexedLogHgIdDataStore>,
        memcache: &mut Option<MemcacheStore>,
        aux_cache: &mut Option<IndexedLogHgIdDataStore>,
        aux_local: &mut Option<IndexedLogHgIdDataStore>,
    )
        requires
            old(self)@.inv(),
        ensures
            final(self)@ == old(self)@.written(),
            final(self)@.inv(),
            final(self)@.same_request(old(self)@),
            (CacheTiers {
                indexedlog_cache: opt_log_view(*final(indexedlog_cache)),
                memcache: opt_memcache_view(*final(memcache)),
                aux_cache: opt_log_view(*final(aux_cache)),
                aux_local: opt_log_view(*final(aux_local)),
            }) == old(self)@.written_tiers(
                CacheTiers {
                    indexedlog_cache: opt_log_view(*old(indexedlog_cache)),
                    memcache: opt_memcache_view(*old(memcache)),
                    aux_cache: opt_log_view(*old(aux_cache)),
                    aux_local: opt_log_view(*old(aux_local)),
                },
            ),
    {
        let ghost start = self@;
        let ghost t0 = CacheTiers {
            indexedlog_cache: opt_log_view(*indexedlog_cache),
            memcache: opt_memcache_view(*memcache),
            aux_cache: opt_log_view(*aux_cache),
            aux_local: opt_log_view(*aux_local),
        };
        let n = self.found_in_edenapi.len();
        let ghost keys = self@.found_in_edenapi;
        let mut i: usize = 0;
        while i < n
            invariant
                i <= n,
                n == keys.len(),
                self@ == start,
                start.inv(),
                keys == start.found_in_edenapi,
                (CacheTiers {
                    indexedlog_cache: opt_log_view(*indexedlog_cache),
                    memcache: opt_memcache_view(*memcache),
                    aux_cache: opt_log_view(*aux_cache),
                    aux_local: opt_log_view(*aux_local),
                }) == start.write_edenapi(t0, keys.subrange(0, i as int)),
            decreases n - i,
        {
            let key = self.found_in_edenapi.key_at(i).clone();
            proof {
                assert(keys.subrange(0, i + 1).drop_last() =~= keys.subrange(0, i as int));
                assert(keys.subrange(0, i + 1).last() == key@);
                assert(keys.contains(key@));
                assert(start.found_in_edenapi.contains(key@));
            }
            if let Some(file) = self.found.get(&key) {
                if let Some(lazy_file) = file.content() {
                    if let Some(cache_entry) = lazy_file.indexedlog_cache_entry(key) {
                        add_if_some(memcache, cache_entry.clone());
                        put_if_some(indexedlog_cache, cache_entry);
                    }
                }
            }
            i += 1;
        }
        proof {
            assert(keys.subrange(0, n as int) =~= keys);
        }
        let ghost t1 = start.write_edenapi(t0, start.found_in_edenapi);
        let n = self.found_in_memcache.len();
        let ghost keys = self@.found_in_memcache;
        let mut i: usize = 0;
        while i < n
            invariant
                i <= n,
                n == keys.len(),
                self@ == start,
                start.inv(),
                keys == start.found_in_memcache,
                (CacheTiers {
                    indexedlog_cache: opt_log_view(*indexedlog_cache),
                    memcache: opt_memcache_view(*memcache),
                    aux_cache: opt_log_view(*aux_cache),
                    aux_local: opt_log_view(*aux_local),
                }) == start.write_memcache(t1, keys.subrange(0, i as int)),
            decreases n - i,
        {
            let key = self.found_in_memcache.key_at(i).clone();
            proof {
                assert(keys.subrange(0, i + 1).drop_last() =~= keys.subrange(0, i as int));
                assert(keys.subrange(0, i + 1).last() == key@);
                assert(keys.contains(key@));
                assert(start.found_in_memcache.contains(key@));
            }
            if let Some(file) = self.found.get(&key) {
                if let Some(lazy_file) = file.content() {
                    if let Some(cache_entry) = lazy_file.indexedlog_cache_entry(key) {
                        put_if_some(indexedlog_cache, cache_entry);
                    }
                }
            }
            i += 1;
        }
        proof {
            assert(keys.subrange(0, n as int) =~= keys);
        }
        let ghost t2 = start.write_memcache(t1, start.found_in_memcache);
        let n = self.computed_aux_data.len();
        let ghost keys = self@.computed_aux_data.keys;
        let mut i: usize = 0;
        while i < n
            invariant
                i <= n,
                n == keys.len(),
                self@ == start,
                start.inv(),
                keys == start.computed_aux_data.keys,
                (CacheTiers {
                    indexedlog_cache: opt_log_view(*indexedlog_cache),
                    memcache: opt_memcache_view(*memcache),
                    aux_cache: opt_log_view(*aux_cache),
                    aux_local: opt_log_view(*aux_local),
                }) == start.write_aux(t2, keys.subrange(0, i as int)),
            decreases n - i,
        {
            let key = self.computed_aux_data.key_at(i).clone();
            let origin = *self.computed_aux_data.value_at(i);
            proof {
                assert(keys.subrange(0, i + 1).drop_last() =~= keys.subrange(0, i as int));
                assert(keys.subrange(0, i + 1).last() == key@);
                assert(start.computed_aux_data.contains_key(key@));
            }
            if let Some(file) = self.found.get(&key) {
                if let Some(aux_data) = file.aux_data() {
                    let blob = aux_to_bytes(&aux_data);
                    let entry = Entry::new(key, blob, Metadata::empty());
                    match origin {
                        LocalStoreType::Cache => {
                            put_if_some(aux_cache, entry);
                        },
                        LocalStoreType::Local => {
                            put_if_some(aux_local, entry);
                        },
                    }
                }
            }
            i += 1;
        }
        proof {
            assert(keys.subrange(0, n as int) =~= keys);
        }
        self.found_in_edenapi = KeySet::new();
        self.found_in_memcache = KeySet::new();
        self.computed_aux_data = AssocMap::new();
        proof {
            assert(self@ == start.written());
            assert forall|x: KeyView| self@.requested(x) <==> start.requested(x) by {}
        }
    }

    /// Ends the fetch. The keys that are still pending become incomplete,
    /// and so do the keys that have errors and were never completed; every
    /// other found key is complete, with exactly the requested attributes.
    pub fn finish(self) -> (r: FileStoreFetch)
        ensures
            r@.complete.wf(),
            r@.incomplete.wf(),
            r@.complete.map == self@.finish().complete,
            r@.incomplete.map == self@.finish().incomplete,
            r@.other_errors == self@.finish().other_errors,
    {
        let ghost start = self@;
        let FetchState { pending, request_attrs, found, errors, .. } = self;
        let crate::state::FetchErrors { fetch_errors, other_errors } = errors;
        let mut found = found;
        // Combine and collect errors.
        let mut incomplete = fetch_errors;
        let n = pending.len();
        let found_len = found.len();
        let incomplete_len = incomplete.len();
        let mut i: usize = 0;
        while i < n
            invariant
                i <= n,
                n == pending@.len(),
                pending@ == start.pending,
                found@.wf(),
                incomplete@.wf(),
                forall|k: KeyView|
                    found@.map.contains_key(k) <==> (start.found.map.contains_key(k)
                        && !start.pending.subrange(0, i as int).contains(k)),
                forall|k: KeyView|
                    found@.map.contains_key(k) ==> found@.map[k] == start.found.map[k],
                forall|k: KeyView|
                    incomplete@.map.contains_key(k) <==> (start.fetch_errors.map.contains_key(k)
                        || start.pending.subrange(0, i as int).contains(k)),
                forall|k: KeyView|
                    incomplete@.map.contains_key(k) ==> incomplete@.map[k] == (
                    match start.fetch_errors.get(k) {
                        Some(errs) => errs,
                        None => Seq::empty(),
                    }),
            decreases n - i,
        {
            let key = pending.key_at(i);
            proof {
                crate::assoc::lemma_push_contains(start.pending.subrange(0, i as int), key@);
                assert(start.pending.subrange(0, i + 1) =~= start.pending.subrange(
                    0,
                    i as int,
                ).push(key@));
            }
            found.remove(key);
            if !incomplete.contains_key(key) {
                incomplete.insert(key.clone(), Vec::new());
            }
            i += 1;
        }
        proof {
            assert(start.pending.subrange(0, n as int) =~= start.pending);
        }
        let ghost found1 = found@;
        let ghost incomplete1 = incomplete@;
        let mut complete: AssocMap<Key, StoreFile> = AssocMap::new();
        loop
            invariant
                found@.wf(),
                found1.wf(),
                incomplete@.wf(),
                complete@.wf(),
                forall|k: KeyView| found@.map.contains_key(k) ==> found1.map.contains_key(k),
                forall|k: KeyView|
                    found@.map.contains_key(k) ==> found@.map[k] == found1.map[k],
                forall|k: KeyView|
                    complete@.map.contains_key(k) <==> (found1.map.contains_key(k)
                        && !found@.map.contains_key(k)),
                forall|k: KeyView|
                    complete@.map.contains_key(k) ==> complete@.map[k] == found1.map[k].mask(
                        request_attrs,
                    ),
                forall|k: KeyView|
                    incomplete@.map.contains_key(k) <==> (incomplete1.map.contains_key(k)
                        && !complete@.map.contains_key(k)),
                forall|k: KeyView|
                    incomplete@.map.contains_key(k) ==> incomplete@.map[k] == incomplete1.map[k],
            ensures
                found@.keys.len() == 0,
            decreases found@.keys.len(),
        {
            match found.pop() {
                Some((key, value)) => {
                    // Don't return errors for keys we eventually found.
                    incomplete.remove(&key);
                    // Remove attributes that weren't requested.
                    complete.insert(key, value.mask(request_attrs));
                },
                None => {
                    break ;
                },
            }
        }
        proof {
            assert forall|k: KeyView| !found@.map.contains_key(k) by {
                if found@.map.contains_key(k) {
                    assert(found@.keys.contains(k));
                }
            }
            assert(complete@.map =~= start.finish().complete);
            let target = start.finish().incomplete;
            assert forall|k: KeyView| incomplete@.map.contains_key(k) <==> target.contains_key(
                k,
            ) by {
                assert(incomplete1.map.contains_key(k) <==> (start.fetch_errors.map.contains_key(k)
                    || start.pending.contains(k)));
                assert(complete@.map.contains_key(k) <==> start.is_complete(k));
            }
            assert forall|k: KeyView| incomplete@.map.contains_key(k) implies incomplete@.map[k]
                == target[k] by {
                assert(incomplete1.map.contains_key(k));
                assert(target.contains_key(k));
                assert(incomplete@.map[k] == incomplete1.map[k]);
                assert(incomplete1.map[k] == (match start.fetch_errors.get(k) {
                    Some(errs) => errs,
                    None => Seq::empty(),
                }));
            }
            assert(incomplete@.map =~= target);
        }
        FileStoreFetch::new(complete, incomplete, other_errors)
    }
}

} // verus!
