//! What a fetch does for one key does not depend on the other keys of the
//! request: an event for one key leaves what is known of every other key as
//! it was.

use crate::attrs::FileAttributes;
use crate::error::StoreError;
use crate::file::StoreFileView;
use crate::keys::KeyView;
use crate::lfs_remote::{write_blobs, LfsTiers};
use crate::model::FetchModel;
use crate::probe::lemma_filter_member;
use crate::stores::{
    lemma_lookup_all_keys, lookup_all, IndexedLogView, LegacyView, LfsRemoteView, LfsStoreView,
    RemoteView,
};
use crate::types::{
    EntryView, LfsPointersEntry, LfsStoreEntryView, LocalStoreType, Metadata, StoreKeyView,
};
use vstd::prelude::*;

verus! {

/// What a fetch knows of one key.
pub struct Slot {
    /// The key is pending.
    pub pending: bool,
    /// What was found for the key.
    pub found: Option<StoreFileView>,
    /// The pointer that was discovered for the key.
    pub pointer: Option<LfsPointersEntry>,
}

/// What the state knows of `k`.
pub open spec fn slot(s: FetchModel, k: KeyView) -> Slot {
    Slot {
        pending: s.pending.contains(k),
        found: s.found.get(k),
        pointer: s.lfs_pointers.get(k),
    }
}

/// The two states know the same of `k`, and have the same settings.
pub open spec fn same_slot(a: FetchModel, b: FetchModel, k: KeyView) -> bool {
    slot(a, k) == slot(b, k) && a.same_settings(b)
}

/// Removing one key from a sequence keeps every other element.
pub proof fn lemma_without_other<A>(s: Seq<A>, x: A, k: A)
    requires
        x != k,
    ensures
        crate::assoc::seq_without(s, x).contains(k) == s.contains(k),
{
    if s.contains(x) {
        let i = s.index_of(x);
        assert(0 <= i < s.len() && s[i] == x);
        let r = s.remove(i);
        if s.contains(k) {
            let j = choose|j: int| 0 <= j < s.len() && s[j] == k;
            if j < i {
                assert(r[j] == k);
            } else {
                assert(r[j - 1] == k);
            }
        }
        if r.contains(k) {
            let j = choose|j: int| 0 <= j < r.len() && r[j] == k;
            if j < i {
                assert(s[j] == k);
            } else {
                assert(s[j + 1] == k);
            }
        }
    }
}

/// An event for the key `x` leaves what is known of any other key `k` as it
/// was.
pub proof fn lemma_event_frame(s: FetchModel, x: KeyView, k: KeyView)
    requires
        x != k,
    ensures
        same_slot(s.mark_complete(x), s, k),
        forall|sf: StoreFileView, typ: Option<LocalStoreType>| #[trigger]
            same_slot(s.found_attributes(x, sf, typ), s, k),
        forall|ptr: LfsPointersEntry, typ: LocalStoreType| #[trigger]
            same_slot(s.found_pointer(x, ptr, typ), s, k),
        forall|e: StoreError| #[trigger] same_slot(s.keyed_error(x, e), s, k),
        forall|e: EntryView, typ: LocalStoreType| #[trigger]
            same_slot(s.found_pointer_bytes(x, e, typ), s, k),
        forall|e: EntryView, typ: LocalStoreType| #[trigger]
            same_slot(s.found_indexedlog(x, e, typ), s, k),
        forall|e: LfsStoreEntryView, typ: LocalStoreType| #[trigger]
            same_slot(s.found_lfs(x, e, typ), s, k),
        forall|bytes: Seq<u8>, meta: Metadata| #[trigger]
            same_slot(s.found_contentstore(x, bytes, meta), s, k),
        forall|e: EntryView|
            s.found_aux_indexedlog(x, e) is Some ==> #[trigger] same_slot(
                s.found_aux_indexedlog(x, e)->0,
                s,
                k,
            ),
{
    lemma_without_other(s.pending, x, k);
    assert(same_slot(s.mark_complete(x), s, k));
    assert forall|sf: StoreFileView, typ: Option<LocalStoreType>| #[trigger]
        same_slot(s.found_attributes(x, sf, typ), s, k) by {
        lemma_found_attributes_frame(s, x, sf, typ, k);
    }
    assert forall|e: EntryView, typ: LocalStoreType| #[trigger]
        same_slot(s.found_indexedlog(x, e, typ), s, k) by {
        lemma_found_attributes_frame(
            s,
            x,
            StoreFileView {
                content: Some(crate::file::LazyFileView::IndexedLog(e)),
                aux_data: None,
            },
            Some(typ),
            k,
        );
    }
    assert forall|e: LfsStoreEntryView, typ: LocalStoreType| #[trigger]
        same_slot(s.found_lfs(x, e, typ), s, k) by {
        match e {
            LfsStoreEntryView::PointerAndBlob(ptr, blob) => {
                lemma_found_attributes_frame(
                    s,
                    x,
                    StoreFileView {
                        content: Some(crate::file::LazyFileView::Lfs(blob, ptr)),
                        aux_data: None,
                    },
                    Some(typ),
                    k,
                );
            },
            LfsStoreEntryView::PointerOnly(_) => {},
        }
    }
    assert forall|bytes: Seq<u8>, meta: Metadata| #[trigger]
        same_slot(s.found_contentstore(x, bytes, meta), s, k) by {
        if !meta.spec_is_lfs() {
            let s1 = FetchModel {
                fallbacks: crate::model::FallbackCounts {
                    fetch_hit_content: crate::model::bump(s.fallbacks.fetch_hit_content),
                    ..s.fallbacks
                },
                ..s
            };
            lemma_found_attributes_frame(
                s1,
                x,
                StoreFileView {
                    content: Some(crate::file::LazyFileView::ContentStore(bytes, meta)),
                    aux_data: None,
                },
                None,
                k,
            );
        }
    }
    assert forall|e: EntryView| s.found_aux_indexedlog(x, e) is Some implies #[trigger] same_slot(
        s.found_aux_indexedlog(x, e)->0,
        s,
        k,
    ) by {
        lemma_found_attributes_frame(
            s,
            x,
            StoreFileView {
                content: None,
                aux_data: Some(crate::codec::parsed_aux(e.content)@),
            },
            None,
            k,
        );
    }
}

/// Attributes found for the key `x` leave what is known of any other key
/// `k` as it was.
pub proof fn lemma_found_attributes_frame(
    s: FetchModel,
    x: KeyView,
    sf: StoreFileView,
    typ: Option<LocalStoreType>,
    k: KeyView,
)
    requires
        x != k,
    ensures
        same_slot(s.found_attributes(x, sf, typ), s, k),
{
    let origin = match typ {
        Some(t) => t,
        None => LocalStoreType::Cache,
    };
    let s1 = FetchModel {
        key_origin: s.key_origin.insert(x, origin),
        found: s.found.insert(x, s.merged(x, sf)),
        ..s
    };
    lemma_without_other(s1.pending, x, k);
}

/// An entry that a remote tier delivered for the key `x` leaves what is
/// known of any other key `k` as it was.
pub proof fn lemma_remote_event_frame(s: FetchModel, e: EntryView, k: KeyView)
    requires
        e.key != k,
    ensures
        same_slot(s.found_memcache(e), s, k),
        same_slot(s.found_edenapi(e), s, k),
{
    let x = e.key;
    lemma_event_frame(s, x, k);
    if !e.metadata.spec_is_lfs() {
        let m = FetchModel {
            found_in_memcache: if s.found_in_memcache.contains(x) {
                s.found_in_memcache
            } else {
                s.found_in_memcache.push(x)
            },
            ..s
        };
        lemma_found_attributes_frame(
            m,
            x,
            StoreFileView {
                content: Some(crate::file::LazyFileView::Memcache(e)),
                aux_data: None,
            },
            None,
            k,
        );
        let a = FetchModel {
            found_in_edenapi: if s.found_in_edenapi.contains(x) {
                s.found_in_edenapi
            } else {
                s.found_in_edenapi.push(x)
            },
            ..s
        };
        lemma_found_attributes_frame(
            a,
            x,
            StoreFileView {
                content: Some(crate::file::LazyFileView::EdenApi(e)),
                aux_data: None,
            },
            None,
            k,
        );
    }
}

// ---------------------------------------------------------------------
// Probes that do not ask for the key
// ---------------------------------------------------------------------
/// An indexed log that is asked for other keys, or finds nothing under
/// `k`, leaves `k` as it was.
pub proof fn lemma_probe_indexedlog_frame(
    s: FetchModel,
    store: IndexedLogView,
    keys: Seq<KeyView>,
    typ: LocalStoreType,
    k: KeyView,
)
    requires
        forall|i: int| 0 <= i < keys.len() ==> keys[i] != k || store.found_at(k) is None,
    ensures
        same_slot(s.probe_indexedlog(store, keys, typ), s, k),
    decreases keys.len(),
{
    if keys.len() > 0 {
        let front = keys.drop_last();
        assert forall|i: int| 0 <= i < front.len() implies front[i] != k || store.found_at(k)
            is None by {
            assert(front[i] == keys[i]);
        }
        lemma_probe_indexedlog_frame(s, store, front, typ, k);
        let r = s.probe_indexedlog(store, front, typ);
        let x = keys.last();
        assert(x == keys[keys.len() - 1]);
        if x != k {
            lemma_event_frame(r, x, k);
        } else {
            assert(store.found_at(k) is None);
            if let Err(e) = store.read(k) {
                assert(same_slot(r.keyed_error(k, e), r, k));
            }
        }
    }
}

/// An auxiliary-data log that is asked for other keys leaves `k` as it was.
pub proof fn lemma_probe_aux_frame(
    s: FetchModel,
    store: IndexedLogView,
    keys: Seq<KeyView>,
    k: KeyView,
)
    requires
        forall|i: int| 0 <= i < keys.len() ==> keys[i] != k,
    ensures
        same_slot(s.probe_aux(store, keys).0, s, k),
    decreases keys.len(),
{
    if keys.len() > 0 {
        let front = keys.drop_last();
        assert forall|i: int| 0 <= i < front.len() implies front[i] != k by {
            assert(front[i] == keys[i]);
        }
        lemma_probe_aux_frame(s, store, front, k);
        let (r, failed) = s.probe_aux(store, front);
        let x = keys.last();
        assert(x == keys[keys.len() - 1]);
        if !failed {
            lemma_event_frame(r, x, k);
        }
    }
}

/// A large-file store that is asked for other keys, or that finds nothing
/// for `k`, leaves `k` as it was.
pub proof fn lemma_probe_lfs_frame(
    s: FetchModel,
    store: LfsStoreView,
    keys: Seq<StoreKeyView>,
    typ: LocalStoreType,
    k: KeyView,
)
    requires
        forall|i: int|
            0 <= i < keys.len() ==> (#[trigger] keys[i]).maybe_key() != Some(k)
                || store.found_at(keys[i]) is None,
    ensures
        same_slot(s.probe_lfs(store, keys, typ), s, k),
    decreases keys.len(),
{
    if keys.len() > 0 {
        let front = keys.drop_last();
        assert forall|i: int| 0 <= i < front.len() implies (#[trigger] front[i]).maybe_key() != Some(
            k,
        ) || store.found_at(front[i]) is None by {
            assert(front[i] == keys[i]);
        }
        lemma_probe_lfs_frame(s, store, front, typ, k);
        let r = s.probe_lfs(store, front, typ);
        let sk = keys.last();
        assert(sk == keys[keys.len() - 1]);
        match sk.maybe_key() {
            Some(x) => {
                if x != k {
                    lemma_event_frame(r, x, k);
                } else {
                    assert(store.found_at(sk) is None);
                    if let Err(e) = store.read(sk) {
                        assert(same_slot(r.keyed_error(k, e), r, k));
                    }
                }
            },
            None => {},
        }
    }
}

/// Entries that the memory cache delivered for other keys leave `k` as it
/// was.
pub proof fn lemma_probe_memcache_frame(s: FetchModel, entries: Seq<EntryView>, k: KeyView)
    requires
        forall|i: int| 0 <= i < entries.len() ==> (#[trigger] entries[i]).key != k,
    ensures
        same_slot(s.probe_memcache(entries), s, k),
    decreases entries.len(),
{
    if entries.len() > 0 {
        let front = entries.drop_last();
        assert forall|i: int| 0 <= i < front.len() implies (#[trigger] front[i]).key != k by {
            assert(front[i] == entries[i]);
        }
        lemma_probe_memcache_frame(s, front, k);
        assert(entries.last() == entries[entries.len() - 1]);
        lemma_remote_event_frame(s.probe_memcache(front), entries.last(), k);
    }
}

/// Entries that the remote API delivered for other keys leave `k` as it
/// was.
pub proof fn lemma_probe_edenapi_frame(s: FetchModel, entries: Seq<EntryView>, k: KeyView)
    requires
        forall|i: int| 0 <= i < entries.len() ==> (#[trigger] entries[i]).key != k,
    ensures
        same_slot(s.probe_edenapi(entries), s, k),
    decreases entries.len(),
{
    if entries.len() > 0 {
        let front = entries.drop_last();
        assert forall|i: int| 0 <= i < front.len() implies (#[trigger] front[i]).key != k by {
            assert(front[i] == entries[i]);
        }
        lemma_probe_edenapi_frame(s, front, k);
        assert(entries.last() == entries[entries.len() - 1]);
        lemma_remote_event_frame(s.probe_edenapi(front), entries.last(), k);
    }
}

/// A legacy store that is asked for other keys leaves `k` as it was.
pub proof fn lemma_probe_contentstore_frame(
    s: FetchModel,
    store: LegacyView,
    keys: Seq<StoreKeyView>,
    k: KeyView,
)
    requires
        forall|i: int| 0 <= i < keys.len() ==> (#[trigger] keys[i]).maybe_key() != Some(k),
    ensures
        same_slot(s.probe_contentstore(store, keys), s, k),
    decreases keys.len(),
{
    if keys.len() > 0 {
        let front = keys.drop_last();
        assert forall|i: int| 0 <= i < front.len() implies (#[trigger] front[i]).maybe_key() != Some(
            k,
        ) by {
            assert(front[i] == keys[i]);
        }
        lemma_probe_contentstore_frame(s, store, front, k);
        let r = s.probe_contentstore(store, front);
        let sk = keys.last();
        assert(sk == keys[keys.len() - 1]);
        match sk.maybe_key() {
            Some(x) => {
                lemma_event_frame(r.count_fetch(), x, k);
            },
            None => {},
        }
    }
}

// ---------------------------------------------------------------------
// A key that is not pending is not asked for
// ---------------------------------------------------------------------
/// A key that is not pending is in none of the lists of keys to ask for.
pub proof fn lemma_not_pending_not_asked(s: FetchModel, fetchable: FileAttributes, k: KeyView)
    requires
        !s.pending.contains(k),
    ensures
        !s.pending_all(fetchable).contains(k),
        !s.pending_nonlfs(fetchable).contains(k),
        forall|i: int|
            0 <= i < s.pending_storekey(fetchable).len() ==> (#[trigger] s.pending_storekey(
                fetchable,
            )[i]).maybe_key() != Some(k),
{
    lemma_filter_member(s.pending, |x: KeyView| s.actionable(x, fetchable));
    lemma_filter_member(
        s.pending,
        |x: KeyView| !s.lfs_pointers.contains_key(x) && s.actionable(x, fetchable),
    );
    let keys = s.pending_all(fetchable);
    assert forall|i: int| 0 <= i < s.pending_storekey(fetchable).len() implies (
    #[trigger] s.pending_storekey(fetchable)[i]).maybe_key() != Some(k) by {
        assert(keys.contains(keys[i]));
        assert(s.pending_storekey(fetchable)[i] == s.storekey(keys[i]));
    }
}

/// No tier changes what is known of a key that is not pending.
pub proof fn lemma_not_pending_frame(s: FetchModel, k: KeyView)
    requires
        !s.pending.contains(k),
    ensures
        forall|t: IndexedLogView| #[trigger] same_slot(s.fetch_aux_indexedlog(t), s, k),
        forall|t: IndexedLogView, typ: LocalStoreType| #[trigger]
            same_slot(s.fetch_indexedlog(t, typ), s, k),
        forall|t: LfsStoreView, typ: LocalStoreType| #[trigger]
            same_slot(s.fetch_lfs(t, typ), s, k),
        forall|t: RemoteView| #[trigger] same_slot(s.fetch_memcache(t), s, k),
        forall|t: RemoteView| #[trigger] same_slot(s.fetch_edenapi(t), s, k),
        forall|t: LegacyView| #[trigger] same_slot(s.fetch_contentstore(t), s, k),
{
    let content = FileAttributes::spec_only_content();
    let aux = FileAttributes::spec_only_aux();
    lemma_not_pending_not_asked(s, content, k);
    lemma_not_pending_not_asked(s, aux, k);
    assert forall|t: IndexedLogView| #[trigger] same_slot(s.fetch_aux_indexedlog(t), s, k) by {
        let keys = s.pending_all(aux);
        assert forall|i: int| 0 <= i < keys.len() implies keys[i] != k by {
            assert(keys.contains(keys[i]));
        }
        lemma_probe_aux_frame(s, t, keys, k);
    }
    assert forall|t: IndexedLogView, typ: LocalStoreType| #[trigger]
        same_slot(s.fetch_indexedlog(t, typ), s, k) by {
        let keys = s.pending_nonlfs(content);
        assert forall|i: int| 0 <= i < keys.len() implies keys[i] != k || t.found_at(k)
            is None by {
            assert(keys.contains(keys[i]));
        }
        lemma_probe_indexedlog_frame(s, t, keys, typ, k);
    }
    assert forall|t: LfsStoreView, typ: LocalStoreType| #[trigger]
        same_slot(s.fetch_lfs(t, typ), s, k) by {
        lemma_probe_lfs_frame(s, t, s.pending_storekey(content), typ, k);
    }
    assert forall|t: RemoteView| #[trigger] same_slot(s.fetch_memcache(t), s, k) by {
        lemma_remote_frame(s, t, k);
    }
    assert forall|t: RemoteView| #[trigger] same_slot(s.fetch_edenapi(t), s, k) by {
        lemma_remote_frame(s, t, k);
    }
    assert forall|t: LegacyView| #[trigger] same_slot(s.fetch_contentstore(t), s, k) by {
        lemma_probe_contentstore_frame(s, t, s.pending_storekey(content), k);
    }
}

/// Neither remote tier changes what is known of a key that is not
/// pending.
pub proof fn lemma_remote_frame(s: FetchModel, t: RemoteView, k: KeyView)
    requires
        !s.pending.contains(k),
    ensures
        same_slot(s.fetch_memcache(t), s, k),
        same_slot(s.fetch_edenapi(t), s, k),
{
    let content = FileAttributes::spec_only_content();
    lemma_not_pending_not_asked(s, content, k);
    let keys = s.pending_nonlfs(content);
    if keys.len() > 0 && t.available {
        let entries = lookup_all(t.entries.map, keys);
        lemma_lookup_all_keys(t.entries.map, keys);
        assert forall|i: int| 0 <= i < entries.len() implies (#[trigger] entries[i]).key != k by {
            assert(keys.contains(entries[i].key));
        }
        lemma_probe_memcache_frame(s, entries, k);
        lemma_probe_edenapi_frame(s, entries, k);
    }
}

/// The large-file server does not change what is known of a key that is not
/// pending.
pub proof fn lemma_lfs_remote_frame(s: FetchModel, r: LfsRemoteView, t: LfsTiers, k: KeyView)
    requires
        !s.pending.contains(k),
    ensures
        same_slot(s.fetch_lfs_remote(r, t).0, s, k),
{
    let objs = s.lfs_objects();
    if objs.len() > 0 {
        match r.batch_fetch(objs) {
            Err(e) => {
                assert(same_slot(s.other_error(e), s, k));
            },
            Ok(blobs) => {
                let (t1, failed) = write_blobs(s.pointer_origin, t, blobs);
                match failed {
                    Some(e) => {
                        assert(same_slot(s.other_error(e), s, k));
                    },
                    None => {
                        lemma_not_pending_frame(s, k);
                        let s1 = match t1.cache {
                            Some(c) => s.fetch_lfs(c, LocalStoreType::Cache),
                            None => s,
                        };
                        assert(same_slot(s1, s, k)) by {
                            if let Some(c) = t1.cache {
                                assert(same_slot(s.fetch_lfs(c, LocalStoreType::Cache), s, k));
                            }
                        }
                        lemma_not_pending_frame(s1, k);
                        let s2 = match t1.local {
                            Some(l) => s1.fetch_lfs(l, LocalStoreType::Local),
                            None => s1,
                        };
                        assert(same_slot(s2, s1, k)) by {
                            if let Some(l) = t1.local {
                                assert(same_slot(s1.fetch_lfs(l, LocalStoreType::Local), s1, k));
                            }
                        }
                        assert(s.fetch_lfs_remote(r, t).0 == s2);
                    },
                }
            },
        }
    }
}

/// The derivation pass leaves `k` as it was where it looks at other keys
/// only, or has nothing to do for `k`.
pub proof fn lemma_derive_keys_slot(s: FetchModel, keys: Seq<KeyView>, k: KeyView)
    requires
        forall|i: int| 0 <= i < keys.len() ==> keys[i] != k || !s.derive_touches(k),
    ensures
        same_slot(s.derive_keys(keys), s, k),
    decreases keys.len(),
{
    if keys.len() > 0 {
        let front = keys.drop_last();
        assert forall|i: int| 0 <= i < front.len() implies front[i] != k || !s.derive_touches(
            k,
        ) by {
            assert(front[i] == keys[i]);
        }
        lemma_derive_keys_slot(s, front, k);
        let r = s.derive_keys(front);
        let x = keys.last();
        assert(x == keys[keys.len() - 1]);
        if x != k {
            lemma_without_other(r.pending, x, k);
            let r1 = if r.derives_aux(x) {
                FetchModel {
                    found: r.found.insert(x, r.found.map[x].with_computed_aux()),
                    computed_aux_data: r.computed_aux_data.insert(x, r.key_origin.map[x]),
                    ..r
                }
            } else {
                r
            };
            lemma_without_other(r1.pending, x, k);
        } else {
            assert(!s.derive_touches(k));
            assert(slot(r, k) == slot(s, k));
            assert(r.found.map[k] == s.found.map[k]);
            assert(!r.derives_aux(k));
            assert(r.mark_complete(k).pending =~= r.pending) by {
                assert(!r.pending.contains(k));
            }
            assert(r.lfs_pointers.get(k) is None);
        }
    }
}

impl FetchModel {
    /// The derivation pass may change what is known of `k`: the key is
    /// still pending, or a pointer is known for it, or nothing was found
    /// for it, or it lacks auxiliary data that is requested and computable.
    pub open spec fn derive_touches(self, k: KeyView) -> bool {
        ||| self.pending.contains(k)
        ||| self.lfs_pointers.contains_key(k)
        ||| !self.found.contains_key(k)
        ||| self.derives_aux(k)
    }
}

} // verus!
