//! What follows the probes: deriving attributes from those found, writing
//! what was fetched back to warmer tiers, and the result of the fetch.

use crate::assoc::{lemma_ordmap_insert, OrdMap};
use crate::attrs::FileAttributes;
use crate::codec::aux_bytes_of;
use crate::error::StoreError;
use crate::file::StoreFileView;
use crate::keys::KeyView;
use crate::model::{lemma_mark_complete, FetchModel};
use crate::stores::{IndexedLogView, RemoteView};
use crate::types::{EntryView, LocalStoreType, Metadata};
use vstd::prelude::*;

verus! {

/// The tiers that a fetch writes back to, each present or not.
pub struct CacheTiers {
    /// The shared indexed-log cache.
    pub indexedlog_cache: Option<IndexedLogView>,
    /// The distributed memory cache.
    pub memcache: Option<RemoteView>,
    /// The auxiliary-data cache.
    pub aux_cache: Option<IndexedLogView>,
    /// The local auxiliary-data store.
    pub aux_local: Option<IndexedLogView>,
}

/// The log, if there is one, after an attempt to write `e`.
pub open spec fn put_opt(log: Option<IndexedLogView>, e: EntryView) -> Option<IndexedLogView> {
    match log {
        Some(l) => Some(l.put(e)),
        None => None,
    }
}

/// The memory cache, if there is one, after it took `e`.
pub open spec fn add_opt(cache: Option<RemoteView>, e: EntryView) -> Option<RemoteView> {
    match cache {
        Some(c) => Some(c.add(e)),
        None => None,
    }
}

/// The result of a fetch.
pub struct FetchResult {
    /// The keys whose requested attributes were all found, each with exactly
    /// the requested attributes.
    pub complete: Map<KeyView, StoreFileView>,
    /// The keys for which something is missing, each with the errors met on
    /// the way; no errors means the key was not found anywhere.
    pub incomplete: Map<KeyView, Seq<StoreError>>,
    /// The errors of whole tiers.
    pub other_errors: Seq<StoreError>,
}

impl FetchModel {
    // -----------------------------------------------------------------
    // Derivation
    // -----------------------------------------------------------------
    /// Auxiliary data is requested for the found key `k`, missing, and
    /// computable from what was found.
    pub open spec fn derives_aux(self, k: KeyView) -> bool {
        let value = self.found.map[k];
        let missing = self.request_attrs.difference(value.attrs());
        value.attrs().spec_with_computable().intersect(missing).aux_data
    }

    /// The found key `k` was looked at: its auxiliary data is computed if
    /// `derives_aux` says so, with the key's origin recorded for the
    /// write-back, and the key is complete if the request is now covered.
    pub open spec fn derive_step(self, k: KeyView) -> FetchModel {
        let s = if self.derives_aux(k) {
            FetchModel {
                found: self.found.insert(k, self.found.map[k].with_computed_aux()),
                computed_aux_data: self.computed_aux_data.insert(k, self.key_origin.map[k]),
                ..self
            }
        } else {
            self
        };
        if s.found.map[k].attrs().spec_has(self.request_attrs) {
            s.mark_complete(k)
        } else {
            s
        }
    }

    /// The state after the found keys `keys` were looked at, one after the
    /// other.
    pub open spec fn derive_keys(self, keys: Seq<KeyView>) -> FetchModel
        decreases keys.len(),
    {
        if keys.len() == 0 {
            self
        } else {
            self.derive_keys(keys.drop_last()).derive_step(keys.last())
        }
    }

    /// The state after every found key was looked at.
    pub open spec fn derive_computable(self) -> FetchModel {
        if self.compute_aux_data {
            self.derive_keys(self.found.keys)
        } else {
            self
        }
    }

    // -----------------------------------------------------------------
    // Write-back
    // -----------------------------------------------------------------
    /// The tiers after the content that the remote API delivered for `keys`
    /// was written to the memory cache and to the indexed-log cache, as far
    /// as it can be written as an indexed-log entry.
    pub open spec fn write_edenapi(self, t: CacheTiers, keys: Seq<KeyView>) -> CacheTiers
        decreases keys.len(),
    {
        if keys.len() == 0 {
            t
        } else {
            let t = self.write_edenapi(t, keys.drop_last());
            let k = keys.last();
            match self.found.map[k].content {
                Some(c) => match c.cache_entry(k) {
                    Some(e) => CacheTiers {
                        memcache: add_opt(t.memcache, e),
                        indexedlog_cache: put_opt(t.indexedlog_cache, e),
                        ..t
                    },
                    None => t,
                },
                None => t,
            }
        }
    }

    /// The tiers after the content that the memory cache delivered for
    /// `keys` was written to the indexed-log cache.
    pub open spec fn write_memcache(self, t: CacheTiers, keys: Seq<KeyView>) -> CacheTiers
        decreases keys.len(),
    {
        if keys.len() == 0 {
            t
        } else {
            let t = self.write_memcache(t, keys.drop_last());
            let k = keys.last();
            match self.found.map[k].content {
                Some(c) => match c.cache_entry(k) {
                    Some(e) => CacheTiers { indexedlog_cache: put_opt(t.indexedlog_cache, e), ..t },
                    None => t,
                },
                None => t,
            }
        }
    }

    /// The entry that holds the auxiliary data found for `k`.
    pub open spec fn aux_entry(self, k: KeyView) -> EntryView {
        EntryView {
            key: k,
            content: aux_bytes_of(self.found.map[k].aux_data->0.content_sha256),
            metadata: Metadata::spec_empty(),
        }
    }

    /// The tiers after the auxiliary data computed for `keys` was written,
    /// each to the auxiliary-data tier of the kind recorded for its key.
    pub open spec fn write_aux(self, t: CacheTiers, keys: Seq<KeyView>) -> CacheTiers
        decreases keys.len(),
    {
        if keys.len() == 0 {
            t
        } else {
            let t = self.write_aux(t, keys.drop_last());
            let k = keys.last();
            match self.computed_aux_data.map[k] {
                LocalStoreType::Cache => CacheTiers {
                    aux_cache: put_opt(t.aux_cache, self.aux_entry(k)),
                    ..t
                },
                LocalStoreType::Local => CacheTiers {
                    aux_local: put_opt(t.aux_local, self.aux_entry(k)),
                    ..t
                },
            }
        }
    }

    /// The tiers after the write-back.
    pub open spec fn written_tiers(self, t: CacheTiers) -> CacheTiers {
        let t1 = self.write_edenapi(t, self.found_in_edenapi);
        let t2 = self.write_memcache(t1, self.found_in_memcache);
        self.write_aux(t2, self.computed_aux_data.keys)
    }

    /// The state after the write-back: nothing is left to write.
    pub open spec fn written(self) -> FetchModel {
        FetchModel {
            found_in_edenapi: Seq::empty(),
            found_in_memcache: Seq::empty(),
            computed_aux_data: OrdMap::empty(),
            ..self
        }
    }

    // -----------------------------------------------------------------
    // Result
    // -----------------------------------------------------------------
    /// `k` is complete: it was found and is no longer pending.
    pub open spec fn is_complete(self, k: KeyView) -> bool {
        self.found.contains_key(k) && !self.pending.contains(k)
    }

    /// The result of the fetch. The complete keys carry what was found for
    /// them, masked to the request. Every other key that is pending or has
    /// errors is incomplete, with its errors.
    pub open spec fn finish(self) -> FetchResult {
        FetchResult {
            complete: Map::new(
                |k: KeyView| self.is_complete(k),
                |k: KeyView| self.found.map[k].mask(self.request_attrs),
            ),
            incomplete: Map::new(
                |k: KeyView|
                    (self.fetch_errors.contains_key(k) || self.pending.contains(k))
                        && !self.is_complete(k),
                |k: KeyView|
                    match self.fetch_errors.get(k) {
                        Some(errs) => errs,
                        None => Seq::empty(),
                    },
            ),
            other_errors: self.other_errors,
        }
    }
}

// ---------------------------------------------------------------------
// Laws
// ---------------------------------------------------------------------
/// A masked file carries no attribute outside the mask.
pub proof fn lemma_mask_attrs(sf: StoreFileView, attrs: FileAttributes)
    ensures
        sf.mask(attrs).attrs().subset_of(attrs),
        sf.mask(attrs).attrs() == sf.attrs().intersect(attrs),
{
}

/// Every requested key ends up complete or incomplete, never both, and no
/// other key does; a complete key carries every requested attribute.
pub proof fn lemma_finish_partition(s: FetchModel)
    requires
        s.inv(),
    ensures
        forall|k: KeyView|
            s.requested(k) <==> (s.finish().complete.contains_key(k)
                || s.finish().incomplete.contains_key(k)),
        forall|k: KeyView|
            !(s.finish().complete.contains_key(k) && s.finish().incomplete.contains_key(k)),
        forall|k: KeyView| #[trigger]
            s.finish().complete.contains_key(k) ==> s.finish().complete[k].attrs().spec_has(
                s.request_attrs,
            ),
{
    let r = s.finish();
    assert forall|k: KeyView|
        s.requested(k) <==> (r.complete.contains_key(k) || r.incomplete.contains_key(k)) by {
        if s.fetch_errors.contains_key(k) {
            assert(s.requested(k));
        }
    }
    assert forall|k: KeyView| #[trigger] r.complete.contains_key(k) implies r.complete[k].attrs().spec_has(
        s.request_attrs,
    ) by {
        assert(s.found.contains_key(k));
        lemma_mask_attrs(s.found.map[k], s.request_attrs);
    }
}

/// Looking at one found key keeps the invariants, the request, the order of the
/// found keys, and the origins.
pub proof fn lemma_derive_step_inv(s: FetchModel, k: KeyView)
    requires
        s.inv(),
        s.found.contains_key(k),
    ensures
        s.derive_step(k).inv(),
        s.derive_step(k).same_request(s),
        s.derive_step(k).found.keys == s.found.keys,
        s.derive_step(k).key_origin == s.key_origin,
{
    let value = s.found.map[k];
    let s1 = if s.derives_aux(k) {
        FetchModel {
            found: s.found.insert(k, value.with_computed_aux()),
            computed_aux_data: s.computed_aux_data.insert(k, s.key_origin.map[k]),
            ..s
        }
    } else {
        s
    };
    let t = s.derive_step(k);
    lemma_ordmap_insert(s.found, k, value.with_computed_aux());
    lemma_ordmap_insert(s.computed_aux_data, k, s.key_origin.map[k]);
    lemma_mark_complete(s1, k);
    if s.derives_aux(k) {
        assert(value.content is Some);
        assert(s1.found.map[k].aux_data is Some);
    }
    assert forall|x: KeyView| #[trigger] t.found.contains_key(x) implies (t.pending.contains(x)
        <==> !t.found.map[x].attrs().spec_has(t.request_attrs)) by {
        assert(s.found.contains_key(x));
    }
    assert forall|x: KeyView| #[trigger] t.found.contains_key(x) implies t.key_origin.contains_key(
        x,
    ) by {
        assert(s.found.contains_key(x));
    }
    assert forall|x: KeyView| #[trigger] t.fetch_errors.contains_key(x) implies t.requested(x) by {
        assert(s.fetch_errors.contains_key(x));
        assert(s.requested(x));
    }
    assert forall|x: KeyView| #[trigger] t.found_in_memcache.contains(x) implies t.found.contains_key(
        x,
    ) && t.found.map[x].content is Some by {
        assert(s.found_in_memcache.contains(x));
    }
    assert forall|x: KeyView| #[trigger] t.found_in_edenapi.contains(x) implies t.found.contains_key(
        x,
    ) && t.found.map[x].content is Some by {
        assert(s.found_in_edenapi.contains(x));
    }
    assert forall|x: KeyView| #[trigger] t.computed_aux_data.contains_key(x) implies t.found.contains_key(
        x,
    ) && t.found.map[x].aux_data is Some by {
        if x != k {
            assert(s.computed_aux_data.contains_key(x));
        }
    }
    assert forall|x: KeyView| t.requested(x) <==> s.requested(x) by {
        assert(t.found.contains_key(x) <==> s.found.contains_key(x));
    }
}

/// Looking at found keys one after the other keeps the invariants, the
/// request, the order of the found keys, and the origins.
pub proof fn lemma_derive_keys_inv(s: FetchModel, keys: Seq<KeyView>)
    requires
        s.inv(),
        forall|i: int| 0 <= i < keys.len() ==> s.found.contains_key(#[trigger] keys[i]),
    ensures
        s.derive_keys(keys).inv(),
        s.derive_keys(keys).same_request(s),
        s.derive_keys(keys).found.keys == s.found.keys,
        s.derive_keys(keys).key_origin == s.key_origin,
    decreases keys.len(),
{
    if keys.len() > 0 {
        let front = keys.drop_last();
        assert forall|i: int| 0 <= i < front.len() implies s.found.contains_key(
            #[trigger] front[i],
        ) by {
            assert(front[i] == keys[i]);
        }
        lemma_derive_keys_inv(s, front);
        let r = s.derive_keys(front);
        let k = keys.last();
        assert(k == keys[keys.len() - 1]);
        assert(s.found.keys.contains(k));
        assert(r.found.keys.contains(k));
        lemma_derive_step_inv(r, k);
        assert forall|x: KeyView| r.derive_step(k).requested(x) <==> s.requested(x) by {
            assert(r.derive_step(k).requested(x) <==> r.requested(x));
            assert(r.requested(x) <==> s.requested(x));
        }
    }
}

/// The derivation pass keeps the invariants and the request.
pub proof fn lemma_derive_computable_inv(s: FetchModel)
    requires
        s.inv(),
    ensures
        s.derive_computable().inv(),
        s.derive_computable().same_request(s),
{
    if s.compute_aux_data {
        assert forall|i: int| 0 <= i < s.found.keys.len() implies s.found.contains_key(
            #[trigger] s.found.keys[i],
        ) by {
            assert(s.found.keys.contains(s.found.keys[i]));
        }
        lemma_derive_keys_inv(s, s.found.keys);
    }
}

} // verus!
