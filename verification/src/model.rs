//! The fetch state machine as a mathematical value.
//!
//! `FetchModel` holds what a fetch knows at one moment; each event that a
//! tier can produce is a function from one model to the next. The
//! executable `FetchState` is proved to follow these functions step by step,
//! and the invariants of the state machine are proved here, over the model.

use crate::assoc::{
    lemma_ordmap_insert, lemma_ordmap_remove, lemma_push_contains, lemma_seq_without,
    seq_without, OrdMap,
};
use crate::attrs::FileAttributes;
use crate::codec::{aux_parses, parsed_aux, parsed_pointer, pointer_parses};
use crate::error::StoreError;
use crate::file::{LazyFileView, StoreFileView};
use crate::keys::{KeyView, Sha256};
use crate::types::{
    EntryView, ExtStoredPolicy, LfsPointersEntry, LfsStoreEntryView, LocalStoreType, Metadata,
    StoreKeyView,
};
use vstd::prelude::*;

verus! {

/// Counts of what the legacy fallback store was asked and what it gave.
#[derive(Clone, Copy, Debug, PartialEq, Eq, Structural)]
pub struct FallbackCounts {
    pub fetch: u64,
    pub fetch_miss: u64,
    pub fetch_hit_ptr: u64,
    pub fetch_hit_content: u64,
    pub write_ptr: u64,
}

/// A counter after one more event; it stops at the largest value.
pub open spec fn bump(n: u64) -> u64 {
    if n < u64::MAX {
        (n + 1) as u64
    } else {
        n
    }
}

/// The sequence without repeated elements, each kept where it first
/// occurs.
pub open spec fn seq_dedup<A>(s: Seq<A>) -> Seq<A>
    decreases s.len(),
{
    if s.len() == 0 {
        s
    } else {
        let r = seq_dedup(s.drop_last());
        if r.contains(s.last()) {
            r
        } else {
            r.push(s.last())
        }
    }
}

/// `seq_dedup` has no repetition and the same elements.
pub proof fn lemma_seq_dedup<A>(s: Seq<A>)
    ensures
        seq_dedup(s).no_duplicates(),
        forall|x: A| seq_dedup(s).contains(x) <==> s.contains(x),
    decreases s.len(),
{
    if s.len() > 0 {
        let t = s.drop_last();
        lemma_seq_dedup(t);
        let r = seq_dedup(t);
        lemma_push_contains(r, s.last());
        assert(s =~= t.push(s.last()));
        lemma_push_contains(t, s.last());
        assert forall|x: A| seq_dedup(s).contains(x) <==> s.contains(x) by {
            assert(r.contains(x) <==> t.contains(x));
            assert(t.push(s.last()).contains(x) <==> (x == s.last() || t.contains(x)));
            assert(r.push(s.last()).contains(x) <==> (x == s.last() || r.contains(x)));
        }
        if !r.contains(s.last()) {
            let q = r.push(s.last());
            assert forall|i: int, j: int| 0 <= i < q.len() && 0 <= j < q.len() && i != j implies q[i]
                != q[j] by {
                if i < r.len() {
                    assert(r.contains(r[i]));
                }
                if j < r.len() {
                    assert(r.contains(r[j]));
                }
            }
        }
    }
}

/// What a fetch knows at one moment.
pub struct FetchModel {
    /// Requested keys for which some requested attribute is still missing,
    /// in request order.
    pub pending: Seq<KeyView>,
    /// Which attributes were requested.
    pub request_attrs: FileAttributes,
    /// All attributes which have been found so far.
    pub found: OrdMap<KeyView, StoreFileView>,
    /// Large-file pointers discovered for requested keys.
    pub lfs_pointers: OrdMap<KeyView, LfsPointersEntry>,
    /// For each content hash of a discovered pointer, the kind of tier the
    /// pointer was found in.
    pub pointer_origin: OrdMap<Sha256, LocalStoreType>,
    /// For each found key, the kind of tier that values derived for it
    /// belong to.
    pub key_origin: OrdMap<KeyView, LocalStoreType>,
    /// Errors met for single keys.
    pub fetch_errors: OrdMap<KeyView, Seq<StoreError>>,
    /// Errors that belong to no single key.
    pub other_errors: Seq<StoreError>,
    /// Keys whose content the distributed memory cache delivered.
    pub found_in_memcache: Seq<KeyView>,
    /// Keys whose content the remote API delivered.
    pub found_in_edenapi: Seq<KeyView>,
    /// Keys whose auxiliary data was computed, with the tier it belongs to.
    pub computed_aux_data: OrdMap<KeyView, LocalStoreType>,
    /// Counts of legacy fallback use.
    pub fallbacks: FallbackCounts,
    pub extstored_policy: ExtStoredPolicy,
    pub compute_aux_data: bool,
}

impl FetchModel {
    /// The state at the start of a request for `keys` and `attrs`.
    pub open spec fn init(
        keys: Seq<KeyView>,
        attrs: FileAttributes,
        policy: ExtStoredPolicy,
        fallbacks: FallbackCounts,
    ) -> FetchModel {
        FetchModel {
            pending: seq_dedup(keys),
            request_attrs: attrs,
            found: OrdMap::empty(),
            lfs_pointers: OrdMap::empty(),
            pointer_origin: OrdMap::empty(),
            key_origin: OrdMap::empty(),
            fetch_errors: OrdMap::empty(),
            other_errors: Seq::empty(),
            found_in_memcache: Seq::empty(),
            found_in_edenapi: Seq::empty(),
            computed_aux_data: OrdMap::empty(),
            fallbacks,
            extstored_policy: policy,
            compute_aux_data: true,
        }
    }

    /// The keys the request is about: those still pending and those found.
    pub open spec fn requested(self, k: KeyView) -> bool {
        self.pending.contains(k) || self.found.contains_key(k)
    }

    /// Two states have the same settings: the requested attributes and the
    /// policies.
    pub open spec fn same_settings(self, other: FetchModel) -> bool {
        &&& self.request_attrs == other.request_attrs
        &&& self.extstored_policy == other.extstored_policy
        &&& self.compute_aux_data == other.compute_aux_data
    }

    /// Two states have the same settings, and nothing was derived between
    /// them.
    pub open spec fn same_config(self, other: FetchModel) -> bool {
        &&& self.same_settings(other)
        &&& self.computed_aux_data == other.computed_aux_data
    }

    /// Two states are about the same request: the same keys, attributes
    /// and policies.
    pub open spec fn same_request(self, other: FetchModel) -> bool {
        &&& forall|x: KeyView| self.requested(x) <==> other.requested(x)
        &&& self.same_settings(other)
    }

    /// Two states are about the same request, and nothing was derived
    /// between them: what holds between the states before and after a tier
    /// was asked.
    pub open spec fn same_probe(self, other: FetchModel) -> bool {
        &&& self.same_request(other)
        &&& self.same_config(other)
    }

    /// The attributes found so far for `k`.
    pub open spec fn available(self, k: KeyView) -> FileAttributes {
        match self.found.get(k) {
            Some(f) => f.attrs(),
            None => FileAttributes::spec_empty(),
        }
    }

    /// A key is actionable with respect to a tier if asking the tier can
    /// make progress on it: some requested attribute is neither found nor
    /// computable from what was found, and the tier provides it or
    /// something it can be computed from.
    pub open spec fn actionable(self, k: KeyView, fetchable: FileAttributes) -> bool {
        if fetchable.spec_none() {
            false
        } else {
            let available = self.available(k);
            let have = if self.compute_aux_data {
                available.spec_with_computable()
            } else {
                available
            };
            let give = if self.compute_aux_data {
                fetchable.spec_with_computable()
            } else {
                fetchable
            };
            self.request_attrs.difference(have).intersect(give).spec_any()
        }
    }

    /// All pending keys that are actionable with respect to `fetchable`.
    pub open spec fn pending_all(self, fetchable: FileAttributes) -> Seq<KeyView> {
        self.pending.filter(|k: KeyView| self.actionable(k, fetchable))
    }

    /// The pending keys without a discovered pointer that are actionable
    /// with respect to `fetchable`.
    pub open spec fn pending_nonlfs(self, fetchable: FileAttributes) -> Seq<KeyView> {
        self.pending.filter(
            |k: KeyView| !self.lfs_pointers.contains_key(k) && self.actionable(k, fetchable),
        )
    }

    /// How a tier that understands content hashes is asked for `k`.
    pub open spec fn storekey(self, k: KeyView) -> StoreKeyView {
        match self.lfs_pointers.get(k) {
            Some(ptr) => StoreKeyView::Content(ptr.sha256, Some(k)),
            None => StoreKeyView::HgId(k),
        }
    }

    /// The actionable pending keys, each as the tier is asked for it.
    pub open spec fn pending_storekey(self, fetchable: FileAttributes) -> Seq<StoreKeyView> {
        self.pending_all(fetchable).map_values(|k: KeyView| self.storekey(k))
    }

    /// `k` is complete: it leaves the pending keys, and its pointer, if one
    /// was discovered, is forgotten together with the origin of its hash.
    pub open spec fn mark_complete(self, k: KeyView) -> FetchModel {
        FetchModel {
            pending: seq_without(self.pending, k),
            lfs_pointers: self.lfs_pointers.remove(k),
            pointer_origin: match self.lfs_pointers.get(k) {
                Some(ptr) => self.pointer_origin.remove(ptr.sha256),
                None => self.pointer_origin,
            },
            ..self
        }
    }

    /// A pointer for `k` was found in a tier of kind `typ`. The origin of
    /// its hash becomes `Cache` if found in a cache; a `Local` find only
    /// records an origin where none is known.
    pub open spec fn found_pointer(
        self,
        k: KeyView,
        ptr: LfsPointersEntry,
        typ: LocalStoreType,
    ) -> FetchModel {
        FetchModel {
            pointer_origin: match typ {
                LocalStoreType::Cache => self.pointer_origin.insert(ptr.sha256, typ),
                LocalStoreType::Local => if self.pointer_origin.contains_key(ptr.sha256) {
                    self.pointer_origin
                } else {
                    self.pointer_origin.insert(ptr.sha256, typ)
                },
            },
            lfs_pointers: self.lfs_pointers.insert(k, ptr),
            ..self
        }
    }

    /// What is known of `k` once `sf` is merged in: the new attributes win
    /// over those found before.
    pub open spec fn merged(self, k: KeyView, sf: StoreFileView) -> StoreFileView {
        match self.found.get(k) {
            Some(before) => sf.or(before),
            None => sf,
        }
    }

    /// Attributes for `k` were found. They are merged into what was found
    /// before, and `k` is complete once every requested attribute is there.
    pub open spec fn found_attributes(
        self,
        k: KeyView,
        sf: StoreFileView,
        typ: Option<LocalStoreType>,
    ) -> FetchModel {
        let origin = match typ {
            Some(t) => t,
            None => LocalStoreType::Cache,
        };
        let merged = self.merged(k, sf);
        let s = FetchModel {
            key_origin: self.key_origin.insert(k, origin),
            found: self.found.insert(k, merged),
            ..self
        };
        if merged.attrs().spec_has(self.request_attrs) {
            s.mark_complete(k)
        } else {
            s
        }
    }

    /// An error for the single key `k`.
    pub open spec fn keyed_error(self, k: KeyView, e: StoreError) -> FetchModel {
        let before = match self.fetch_errors.get(k) {
            Some(errs) => errs,
            None => Seq::empty(),
        };
        FetchModel { fetch_errors: self.fetch_errors.insert(k, before.push(e)), ..self }
    }

    /// An error that belongs to no single key.
    pub open spec fn other_error(self, e: StoreError) -> FetchModel {
        FetchModel { other_errors: self.other_errors.push(e), ..self }
    }

    /// An entry is read as a pointer: the pointer, or the error of a
    /// malformed one.
    pub open spec fn found_pointer_bytes(
        self,
        k: KeyView,
        entry: EntryView,
        typ: LocalStoreType,
    ) -> FetchModel {
        if pointer_parses(entry.content) {
            self.found_pointer(k, parsed_pointer(entry.content, entry.key.hgid), typ)
        } else {
            self.keyed_error(k, StoreError::MalformedPointer)
        }
    }

    /// An indexed log of kind `typ` holds `entry` for `k`. An entry flagged
    /// as a large-file pointer is followed or ignored as the policy says;
    /// any other entry is content.
    pub open spec fn found_indexedlog(
        self,
        k: KeyView,
        entry: EntryView,
        typ: LocalStoreType,
    ) -> FetchModel {
        if entry.metadata.spec_is_lfs() {
            if self.extstored_policy == ExtStoredPolicy::Use {
                self.found_pointer_bytes(k, entry, typ)
            } else {
                self
            }
        } else {
            self.found_attributes(
                k,
                StoreFileView { content: Some(LazyFileView::IndexedLog(entry)), aux_data: None },
                Some(typ),
            )
        }
    }

    /// A large-file tier of kind `typ` knows `entry` for `k`.
    pub open spec fn found_lfs(
        self,
        k: KeyView,
        entry: LfsStoreEntryView,
        typ: LocalStoreType,
    ) -> FetchModel {
        match entry {
            LfsStoreEntryView::PointerAndBlob(ptr, blob) => self.found_attributes(
                k,
                StoreFileView { content: Some(LazyFileView::Lfs(blob, ptr)), aux_data: None },
                Some(typ),
            ),
            LfsStoreEntryView::PointerOnly(ptr) => self.found_pointer(k, ptr, typ),
        }
    }

    /// The distributed memory cache delivered `entry`. An entry flagged as
    /// a large-file pointer is followed or ignored as the policy says; any
    /// other entry is content, to be written back.
    pub open spec fn found_memcache(self, entry: EntryView) -> FetchModel {
        let k = entry.key;
        if entry.metadata.spec_is_lfs() {
            if self.extstored_policy == ExtStoredPolicy::Use {
                self.found_pointer_bytes(k, entry, LocalStoreType::Cache)
            } else {
                self
            }
        } else {
            let s = FetchModel {
                found_in_memcache: if self.found_in_memcache.contains(k) {
                    self.found_in_memcache
                } else {
                    self.found_in_memcache.push(k)
                },
                ..self
            };
            s.found_attributes(
                k,
                StoreFileView { content: Some(LazyFileView::Memcache(entry)), aux_data: None },
                None,
            )
        }
    }

    /// The remote API delivered `entry`. An entry flagged as a large-file
    /// pointer is followed or ignored as the policy says; any other entry
    /// is content, to be written back.
    pub open spec fn found_edenapi(self, entry: EntryView) -> FetchModel {
        let k = entry.key;
        if entry.metadata.spec_is_lfs() {
            if self.extstored_policy == ExtStoredPolicy::Use {
                self.found_pointer_bytes(k, entry, LocalStoreType::Cache)
            } else {
                self
            }
        } else {
            let s = FetchModel {
                found_in_edenapi: if self.found_in_edenapi.contains(k) {
                    self.found_in_edenapi
                } else {
                    self.found_in_edenapi.push(k)
                },
                ..self
            };
            s.found_attributes(
                k,
                StoreFileView { content: Some(LazyFileView::EdenApi(entry)), aux_data: None },
                None,
            )
        }
    }

    /// The legacy store delivered `bytes` and `meta` for `k`. A pointer is
    /// counted and dropped; content is counted and kept.
    pub open spec fn found_contentstore(
        self,
        k: KeyView,
        bytes: Seq<u8>,
        meta: Metadata,
    ) -> FetchModel {
        if meta.spec_is_lfs() {
            FetchModel {
                fallbacks: FallbackCounts {
                    fetch_hit_ptr: bump(self.fallbacks.fetch_hit_ptr),
                    ..self.fallbacks
                },
                ..self
            }
        } else {
            let s = FetchModel {
                fallbacks: FallbackCounts {
                    fetch_hit_content: bump(self.fallbacks.fetch_hit_content),
                    ..self.fallbacks
                },
                ..self
            };
            s.found_attributes(
                k,
                StoreFileView {
                    content: Some(LazyFileView::ContentStore(bytes, meta)),
                    aux_data: None,
                },
                None,
            )
        }
    }

    /// An auxiliary-data log holds `entry` for `k`: the data it encodes is
    /// found. `None` when the entry does not parse.
    pub open spec fn found_aux_indexedlog(self, k: KeyView, entry: EntryView) -> Option<
        FetchModel,
    > {
        if aux_parses(entry.content) {
            Some(
                self.found_attributes(
                    k,
                    StoreFileView { content: None, aux_data: Some(parsed_aux(entry.content)@) },
                    None,
                ),
            )
        } else {
            None
        }
    }

    /// A tier that delivers content may be asked for `k` by key: `k` is
    /// pending, no pointer is known for it, and content would make
    /// progress.
    pub open spec fn queryable(self, k: KeyView) -> bool {
        &&& self.pending.contains(k)
        &&& !self.lfs_pointers.contains_key(k)
        &&& self.actionable(k, FileAttributes::spec_only_content())
    }

    // -----------------------------------------------------------------
    // Invariants
    // -----------------------------------------------------------------
    /// The orders hold no key twice and list exactly the keys of their maps.
    pub open spec fn ordered(self) -> bool {
        &&& self.pending.no_duplicates()
        &&& self.found.wf()
        &&& self.lfs_pointers.wf()
        &&& self.pointer_origin.wf()
        &&& self.key_origin.wf()
        &&& self.fetch_errors.wf()
        &&& self.computed_aux_data.wf()
        &&& self.found_in_memcache.no_duplicates()
        &&& self.found_in_edenapi.no_duplicates()
    }

    /// What holds of every state a fetch can reach.
    ///
    /// - A found key is pending exactly as long as its found attributes do
    ///   not cover the request.
    /// - Every found key has an origin.
    /// - Errors are recorded only for requested keys.
    /// - A key credited to a remote tier has content, and no key is credited
    ///   to both remote tiers.
    /// - A key with computed auxiliary data has auxiliary data.
    pub open spec fn inv(self) -> bool {
        &&& self.ordered()
        &&& forall|k: KeyView| #[trigger]
            self.found.contains_key(k) ==> (self.pending.contains(k)
                <==> !self.found.map[k].attrs().spec_has(self.request_attrs))
        &&& forall|k: KeyView| #[trigger]
            self.found.contains_key(k) ==> self.key_origin.contains_key(k)
        &&& forall|k: KeyView| #[trigger]
            self.fetch_errors.contains_key(k) ==> self.requested(k)
        &&& forall|k: KeyView| #[trigger]
            self.found_in_memcache.contains(k) ==> self.found.contains_key(k)
                && self.found.map[k].content is Some
        &&& forall|k: KeyView| #[trigger]
            self.found_in_edenapi.contains(k) ==> self.found.contains_key(k)
                && self.found.map[k].content is Some
        &&& forall|k: KeyView|
            !(#[trigger] self.found_in_memcache.contains(k) && self.found_in_edenapi.contains(k))
        &&& forall|k: KeyView| #[trigger]
            self.computed_aux_data.contains_key(k) ==> self.found.contains_key(k)
                && self.found.map[k].aux_data is Some
    }
}

// ---------------------------------------------------------------------
// The invariants hold at the start and after every event.
// ---------------------------------------------------------------------
/// The state at the start of a request satisfies the invariants, and the
/// request is about exactly the keys that were asked for.
pub proof fn lemma_init_inv(
    keys: Seq<KeyView>,
    attrs: FileAttributes,
    policy: ExtStoredPolicy,
    fallbacks: FallbackCounts,
)
    ensures
        FetchModel::init(keys, attrs, policy, fallbacks).inv(),
        forall|k: KeyView| FetchModel::init(keys, attrs, policy, fallbacks).requested(k) <==> keys.contains(k),
{
    lemma_seq_dedup(keys);
}

/// Marking a key complete keeps the orders, removes the key from the pending
/// keys, and leaves every other key as it was.
pub proof fn lemma_mark_complete(s: FetchModel, k: KeyView)
    requires
        s.ordered(),
    ensures
        s.mark_complete(k).ordered(),
        !s.mark_complete(k).pending.contains(k),
        forall|x: KeyView| x != k ==> (s.mark_complete(k).pending.contains(x) <==> s.pending.contains(x)),
{
    lemma_ordmap_remove(s.lfs_pointers, k);
    if s.lfs_pointers.contains_key(k) {
        lemma_ordmap_remove(s.pointer_origin, s.lfs_pointers.map[k].sha256);
    }
    if s.pending.contains(k) {
        let i = choose|i: int| 0 <= i < s.pending.len() && s.pending[i] == k;
        lemma_seq_without(s.pending, i);
    }
}

/// A found pointer keeps the invariants and the request; the origin of its
/// hash is known afterwards, and an origin that was `Cache` stays `Cache`.
pub proof fn lemma_found_pointer_inv(
    s: FetchModel,
    k: KeyView,
    ptr: LfsPointersEntry,
    typ: LocalStoreType,
)
    requires
        s.inv(),
    ensures
        s.found_pointer(k, ptr, typ).inv(),
        forall|x: KeyView| s.found_pointer(k, ptr, typ).requested(x) <==> s.requested(x),
        s.found_pointer(k, ptr, typ).same_config(s),
        // An origin is raised from `Local` to `Cache` but never lowered.
        s.pointer_origin.get(ptr.sha256) == Some(LocalStoreType::Cache) ==> s.found_pointer(
            k,
            ptr,
            typ,
        ).pointer_origin.get(ptr.sha256) == Some(LocalStoreType::Cache),
        s.found_pointer(k, ptr, typ).pointer_origin.contains_key(ptr.sha256),
{
    lemma_ordmap_insert(s.lfs_pointers, k, ptr);
    lemma_ordmap_insert(s.pointer_origin, ptr.sha256, typ);
}

/// An error for a requested key keeps the invariants and the request.
pub proof fn lemma_keyed_error_inv(s: FetchModel, k: KeyView, e: StoreError)
    requires
        s.inv(),
        s.requested(k),
    ensures
        s.keyed_error(k, e).inv(),
        forall|x: KeyView| s.keyed_error(k, e).requested(x) <==> s.requested(x),
        s.keyed_error(k, e).same_config(s),
{
    let before = match s.fetch_errors.get(k) {
        Some(errs) => errs,
        None => Seq::empty(),
    };
    lemma_ordmap_insert(s.fetch_errors, k, before.push(e));
    let t = s.keyed_error(k, e);
    assert forall|x: KeyView| #[trigger] t.fetch_errors.contains_key(x) implies t.requested(x) by {
        if x != k {
            assert(s.fetch_errors.contains_key(x));
        }
    }
}

/// An error of a tier keeps the invariants and the request.
pub proof fn lemma_other_error_inv(s: FetchModel, e: StoreError)
    requires
        s.inv(),
    ensures
        s.other_error(e).inv(),
        forall|x: KeyView| s.other_error(e).requested(x) <==> s.requested(x),
        s.other_error(e).same_config(s),
{
}

/// Attributes found for a requested key keep the invariants and the
/// request.
pub proof fn lemma_found_attributes_inv(
    s: FetchModel,
    k: KeyView,
    sf: StoreFileView,
    typ: Option<LocalStoreType>,
)
    requires
        s.inv(),
        s.requested(k),
    ensures
        s.found_attributes(k, sf, typ).inv(),
        forall|x: KeyView| s.found_attributes(k, sf, typ).requested(x) <==> s.requested(x),
        s.found_attributes(k, sf, typ).same_config(s),
{
    let origin = match typ {
        Some(t) => t,
        None => LocalStoreType::Cache,
    };
    let merged = s.merged(k, sf);
    let s1 = FetchModel {
        key_origin: s.key_origin.insert(k, origin),
        found: s.found.insert(k, merged),
        ..s
    };
    lemma_ordmap_insert(s.key_origin, k, origin);
    lemma_ordmap_insert(s.found, k, merged);
    let t = s.found_attributes(k, sf, typ);
    lemma_mark_complete(s1, k);
    assert forall|x: KeyView| #[trigger] t.found.contains_key(x) implies (t.pending.contains(x)
        <==> !t.found.map[x].attrs().spec_has(t.request_attrs)) by {
        if x != k {
            assert(s.found.contains_key(x));
        }
    }
    assert forall|x: KeyView| #[trigger] t.found.contains_key(x) implies t.key_origin.contains_key(
        x,
    ) by {
        if x != k {
            assert(s.found.contains_key(x));
        }
    }
    assert forall|x: KeyView| #[trigger] t.fetch_errors.contains_key(x) implies t.requested(x) by {
        assert(s.fetch_errors.contains_key(x));
    }
    assert forall|x: KeyView| #[trigger] t.found_in_memcache.contains(x) implies t.found.contains_key(
        x,
    ) && t.found.map[x].content is Some by {
        assert(s.found_in_memcache.contains(x));
    }
    assert forall|x: KeyView| #[trigger] t.found_in_edenapi.contains(x) implies t.found.contains_key(
        x,
    ) && t.found.map[x].content is Some by {
        assert(s.found_in_edenapi.contains(x));
    }
    assert forall|x: KeyView| #[trigger] t.computed_aux_data.contains_key(x) implies t.found.contains_key(
        x,
    ) && t.found.map[x].aux_data is Some by {
        assert(s.computed_aux_data.contains_key(x));
    }
}

/// An entry read as a pointer, for a requested key, keeps the invariants and
/// the request, and credits no remote tier.
pub proof fn lemma_found_pointer_bytes_inv(
    s: FetchModel,
    k: KeyView,
    entry: EntryView,
    typ: LocalStoreType,
)
    requires
        s.inv(),
        s.requested(k),
    ensures
        s.found_pointer_bytes(k, entry, typ).inv(),
        forall|x: KeyView| s.found_pointer_bytes(k, entry, typ).requested(x) <==> s.requested(x),
        s.found_pointer_bytes(k, entry, typ).same_config(s),
        s.found_pointer_bytes(k, entry, typ).found_in_memcache == s.found_in_memcache,
        s.found_pointer_bytes(k, entry, typ).found_in_edenapi == s.found_in_edenapi,
{
    if pointer_parses(entry.content) {
        lemma_found_pointer_inv(s, k, parsed_pointer(entry.content, entry.key.hgid), typ);
    } else {
        lemma_keyed_error_inv(s, k, StoreError::MalformedPointer);
    }
}

/// An entry of an indexed log, for a requested key, keeps the invariants and
/// the request.
pub proof fn lemma_found_indexedlog_inv(
    s: FetchModel,
    k: KeyView,
    entry: EntryView,
    typ: LocalStoreType,
)
    requires
        s.inv(),
        s.requested(k),
    ensures
        s.found_indexedlog(k, entry, typ).inv(),
        forall|x: KeyView| s.found_indexedlog(k, entry, typ).requested(x) <==> s.requested(x),
        s.found_indexedlog(k, entry, typ).same_config(s),
{
    if entry.metadata.spec_is_lfs() {
        if s.extstored_policy == ExtStoredPolicy::Use {
            lemma_found_pointer_bytes_inv(s, k, entry, typ);
        }
    } else {
        lemma_found_attributes_inv(
            s,
            k,
            StoreFileView { content: Some(LazyFileView::IndexedLog(entry)), aux_data: None },
            Some(typ),
        );
    }
}

/// What a large-file tier knows of a requested key keeps the invariants and
/// the request.
pub proof fn lemma_found_lfs_inv(
    s: FetchModel,
    k: KeyView,
    entry: LfsStoreEntryView,
    typ: LocalStoreType,
)
    requires
        s.inv(),
        s.requested(k),
    ensures
        s.found_lfs(k, entry, typ).inv(),
        forall|x: KeyView| s.found_lfs(k, entry, typ).requested(x) <==> s.requested(x),
        s.found_lfs(k, entry, typ).same_config(s),
{
    match entry {
        LfsStoreEntryView::PointerAndBlob(ptr, blob) => {
            lemma_found_attributes_inv(
                s,
                k,
                StoreFileView { content: Some(LazyFileView::Lfs(blob, ptr)), aux_data: None },
                Some(typ),
            );
        },
        LfsStoreEntryView::PointerOnly(ptr) => {
            lemma_found_pointer_inv(s, k, ptr, typ);
        },
    }
}

/// An entry of the memory cache, for a requested key that the remote API was
/// not credited with, keeps the invariants and the request.
pub proof fn lemma_found_memcache_inv(s: FetchModel, entry: EntryView)
    requires
        s.inv(),
        s.requested(entry.key),
        !s.found_in_edenapi.contains(entry.key),
    ensures
        s.found_memcache(entry).inv(),
        forall|x: KeyView| s.found_memcache(entry).requested(x) <==> s.requested(x),
        s.found_memcache(entry).same_config(s),
        s.found_memcache(entry).found_in_edenapi == s.found_in_edenapi,
{
    let k = entry.key;
    if entry.metadata.spec_is_lfs() {
        lemma_found_pointer_bytes_inv(s, k, entry, LocalStoreType::Cache);
    } else {
        let sf = StoreFileView { content: Some(LazyFileView::Memcache(entry)), aux_data: None };
        let t = s.found_attributes(k, sf, None);
        lemma_found_attributes_inv(s, k, sf, None);
        let r = s.found_memcache(entry);
        lemma_push_contains(s.found_in_memcache, k);
        assert(r.found == t.found);
        assert(r.pending == t.pending);
        assert(r.found.map[k].content is Some);
        assert forall|x: KeyView| #[trigger] r.found_in_memcache.contains(x) implies r.found.contains_key(
            x,
        ) && r.found.map[x].content is Some by {
            if x != k {
                assert(s.found_in_memcache.contains(x));
                assert(t.found_in_memcache.contains(x));
            }
        }
        assert(r.found_in_memcache.no_duplicates()) by {
            if !s.found_in_memcache.contains(k) {
                let q = s.found_in_memcache.push(k);
                assert forall|i: int, j: int|
                    0 <= i < q.len() && 0 <= j < q.len() && i != j implies q[i] != q[j] by {
                    if i < s.found_in_memcache.len() {
                        assert(s.found_in_memcache.contains(q[i]));
                    }
                    if j < s.found_in_memcache.len() {
                        assert(s.found_in_memcache.contains(q[j]));
                    }
                }
            }
        }
        assert forall|x: KeyView|
            !(#[trigger] r.found_in_memcache.contains(x) && r.found_in_edenapi.contains(x)) by {
            if x != k {
                assert(!(s.found_in_memcache.contains(x) && s.found_in_edenapi.contains(x)));
            }
        }
    }
}

/// An entry of the remote API, for a requested key that the memory cache was
/// not credited with, keeps the invariants and the request.
pub proof fn lemma_found_edenapi_inv(s: FetchModel, entry: EntryView)
    requires
        s.inv(),
        s.requested(entry.key),
        !s.found_in_memcache.contains(entry.key),
    ensures
        s.found_edenapi(entry).inv(),
        forall|x: KeyView| s.found_edenapi(entry).requested(x) <==> s.requested(x),
        s.found_edenapi(entry).same_config(s),
        s.found_edenapi(entry).found_in_memcache == s.found_in_memcache,
{
    let k = entry.key;
    if entry.metadata.spec_is_lfs() {
        lemma_found_pointer_bytes_inv(s, k, entry, LocalStoreType::Cache);
    } else {
        let sf = StoreFileView { content: Some(LazyFileView::EdenApi(entry)), aux_data: None };
        let t = s.found_attributes(k, sf, None);
        lemma_found_attributes_inv(s, k, sf, None);
        let r = s.found_edenapi(entry);
        lemma_push_contains(s.found_in_edenapi, k);
        assert(r.found == t.found);
        assert(r.pending == t.pending);
        assert(r.found.map[k].content is Some);
        assert forall|x: KeyView| #[trigger] r.found_in_edenapi.contains(x) implies r.found.contains_key(
            x,
        ) && r.found.map[x].content is Some by {
            if x != k {
                assert(s.found_in_edenapi.contains(x));
                assert(t.found_in_edenapi.contains(x));
            }
        }
        assert(r.found_in_edenapi.no_duplicates()) by {
            if !s.found_in_edenapi.contains(k) {
                let q = s.found_in_edenapi.push(k);
                assert forall|i: int, j: int|
                    0 <= i < q.len() && 0 <= j < q.len() && i != j implies q[i] != q[j] by {
                    if i < s.found_in_edenapi.len() {
                        assert(s.found_in_edenapi.contains(q[i]));
                    }
                    if j < s.found_in_edenapi.len() {
                        assert(s.found_in_edenapi.contains(q[j]));
                    }
                }
            }
        }
        assert forall|x: KeyView|
            !(#[trigger] r.found_in_memcache.contains(x) && r.found_in_edenapi.contains(x)) by {
            if x != k {
                assert(!(s.found_in_memcache.contains(x) && s.found_in_edenapi.contains(x)));
            }
        }
    }
}

/// What the legacy store delivered for a requested key keeps the invariants
/// and the request.
pub proof fn lemma_found_contentstore_inv(
    s: FetchModel,
    k: KeyView,
    bytes: Seq<u8>,
    meta: Metadata,
)
    requires
        s.inv(),
        s.requested(k),
    ensures
        s.found_contentstore(k, bytes, meta).inv(),
        forall|x: KeyView| s.found_contentstore(k, bytes, meta).requested(x) <==> s.requested(x),
        s.found_contentstore(k, bytes, meta).same_config(s),
{
    if !meta.spec_is_lfs() {
        let s1 = FetchModel {
            fallbacks: FallbackCounts {
                fetch_hit_content: bump(s.fallbacks.fetch_hit_content),
                ..s.fallbacks
            },
            ..s
        };
        let sf = StoreFileView {
            content: Some(LazyFileView::ContentStore(bytes, meta)),
            aux_data: None,
        };
        lemma_found_attributes_inv(s1, k, sf, None);
        assert(s.found_contentstore(k, bytes, meta) == s1.found_attributes(k, sf, None));
        assert forall|x: KeyView|
            s.found_contentstore(k, bytes, meta).requested(x) <==> s.requested(x) by {
            assert(s1.requested(x) <==> s.requested(x));
            assert(s1.found_attributes(k, sf, None).requested(x) <==> s1.requested(x));
        }
    }
}

/// An auxiliary-data entry that parses, for a requested key, keeps the
/// invariants and the request.
pub proof fn lemma_found_aux_indexedlog_inv(s: FetchModel, k: KeyView, entry: EntryView)
    requires
        s.inv(),
        s.requested(k),
        s.found_aux_indexedlog(k, entry) is Some,
    ensures
        s.found_aux_indexedlog(k, entry)->0.inv(),
        forall|x: KeyView| s.found_aux_indexedlog(k, entry)->0.requested(x) <==> s.requested(x),
        s.found_aux_indexedlog(k, entry)->0.same_config(s),
{
    lemma_found_attributes_inv(
        s,
        k,
        StoreFileView { content: None, aux_data: Some(parsed_aux(entry.content)@) },
        None,
    );
}

/// A key that a content tier may be asked for is requested, and no remote
/// tier has been credited with it.
pub proof fn lemma_queryable(s: FetchModel, k: KeyView)
    requires
        s.inv(),
        s.queryable(k),
    ensures
        s.requested(k),
        !s.found_in_memcache.contains(k),
        !s.found_in_edenapi.contains(k),
{
}

} // verus!
