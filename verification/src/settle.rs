//! One key on its way through a fetch for content: untouched until a tier
//! holds it, settled from then on, whatever else the request asks for.

use crate::attrs::FileAttributes;
use crate::file::{LazyFileView, StoreFileView};
use crate::frames::{
    lemma_derive_keys_slot, lemma_event_frame, lemma_lfs_remote_frame, lemma_not_pending_frame,
    lemma_probe_aux_frame, lemma_probe_indexedlog_frame, lemma_probe_lfs_frame, same_slot, slot,
    Slot,
};
use crate::keys::KeyView;
use crate::lfs_remote::LfsTiers;
use crate::model::FetchModel;
use crate::probe::{
    lemma_filter_member, lemma_pending_storekey, lemma_probe_indexedlog_inv, lemma_probe_lfs_inv,
};
use crate::store::FileStoreView;
use crate::stores::{IndexedLogView, LfsStoreView};
use crate::types::{
    EntryView, ExtStoredPolicy, LfsPointersEntry, LfsStoreEntryView, LocalStoreType, StoreKeyView,
};
use crate::write::{lemma_pointer_entry, pointer_entry};
use vstd::prelude::*;

verus! {

/// A file of which only the content `c` is known.
pub open spec fn content_only(c: LazyFileView) -> StoreFileView {
    StoreFileView { content: Some(c), aux_data: None }
}

/// Nothing is known of `k` yet: it is pending, nothing was found for it and
/// no pointer was discovered.
pub open spec fn untouched(s: FetchModel, k: KeyView) -> bool {
    slot(s, k) == (Slot { pending: true, found: None, pointer: None })
}

/// `k` is complete with the content `c` and nothing else.
pub open spec fn settled(s: FetchModel, k: KeyView, c: LazyFileView) -> bool {
    slot(s, k) == (Slot { pending: false, found: Some(content_only(c)), pointer: None })
}

/// What is in a sequence and passes the predicate is in the filtered
/// sequence.
pub proof fn lemma_filter_keeps<A>(s: Seq<A>, pred: spec_fn(A) -> bool, x: A)
    requires
        s.contains(x),
        pred(x),
    ensures
        s.filter(pred).contains(x),
    decreases s.len(),
{
    reveal(Seq::filter);
    let front = s.drop_last();
    let f = front.filter(pred);
    let i = choose|i: int| 0 <= i < s.len() && s[i] == x;
    if i < s.len() - 1 {
        assert(front[i] == x);
        lemma_filter_keeps(front, pred, x);
        let j = choose|j: int| 0 <= j < f.len() && f[j] == x;
        if pred(s.last()) {
            assert(f.push(s.last())[j] == x);
        }
    } else {
        assert(s.last() == x);
        assert(f.push(x)[f.len() as int] == x);
    }
}

/// A request for content alone asks no auxiliary-data tier for anything.
pub proof fn lemma_content_request_skips_aux(s: FetchModel, t: IndexedLogView, k: KeyView)
    requires
        s.request_attrs == FileAttributes::spec_only_content(),
    ensures
        same_slot(s.fetch_aux_indexedlog(t), s, k),
{
    let aux = FileAttributes::spec_only_aux();
    let keys = s.pending_all(aux);
    lemma_filter_member(s.pending, |x: KeyView| s.actionable(x, aux));
    assert forall|i: int| 0 <= i < keys.len() implies keys[i] != k by {
        assert(keys.contains(keys[i]));
        assert(!s.actionable(keys[i], aux));
    }
    lemma_probe_aux_frame(s, t, keys, k);
}

/// An indexed log that finds nothing under `k`, because it holds nothing
/// there or because it fails to read it, leaves the key as it was.
pub proof fn lemma_indexedlog_miss(
    s: FetchModel,
    store: IndexedLogView,
    typ: LocalStoreType,
    k: KeyView,
)
    requires
        store.found_at(k) is None,
    ensures
        same_slot(s.fetch_indexedlog(store, typ), s, k),
{
    lemma_probe_indexedlog_frame(
        s,
        store,
        s.pending_nonlfs(FileAttributes::spec_only_content()),
        typ,
        k,
    );
}

/// An indexed log that holds content for `k` settles it when it is asked
/// for it, among other keys.
pub proof fn lemma_probe_indexedlog_hit(
    s: FetchModel,
    store: IndexedLogView,
    keys: Seq<KeyView>,
    typ: LocalStoreType,
    k: KeyView,
    e: EntryView,
)
    requires
        s.inv(),
        forall|i: int| 0 <= i < keys.len() ==> s.requested(#[trigger] keys[i]),
        s.request_attrs == FileAttributes::spec_only_content(),
        store.found_at(k) == Some(e),
        !e.metadata.spec_is_lfs(),
        untouched(s, k) || settled(s, k, LazyFileView::IndexedLog(e)),
    ensures
        ({
            let r = s.probe_indexedlog(store, keys, typ);
            let c = LazyFileView::IndexedLog(e);
            &&& untouched(r, k) || settled(r, k, c)
            &&& keys.contains(k) || settled(s, k, c) ==> settled(r, k, c)
        }),
    decreases keys.len(),
{
    if keys.len() > 0 {
        let c = LazyFileView::IndexedLog(e);
        let sf = content_only(c);
        let front = keys.drop_last();
        assert forall|i: int| 0 <= i < front.len() implies s.requested(#[trigger] front[i]) by {
            assert(front[i] == keys[i]);
        }
        lemma_probe_indexedlog_hit(s, store, front, typ, k, e);
        lemma_probe_indexedlog_inv(s, store, front, typ);
        lemma_probe_indexedlog_inv(s, store, keys, typ);
        let r = s.probe_indexedlog(store, front, typ);
        let r2 = s.probe_indexedlog(store, keys, typ);
        let x = keys.last();
        assert(x == keys[keys.len() - 1]);
        if x == k {
            assert(r.merged(k, sf) == sf);
            assert(sf.attrs().spec_has(r.request_attrs));
            assert(r2 == r.found_attributes(k, sf, Some(typ)));
            assert(r2.found.get(k) == Some(sf));
            assert(r2.lfs_pointers.get(k) is None);
            assert(r2.found.contains_key(k));
            assert(!r2.pending.contains(k));
        } else {
            lemma_event_frame(r, x, k);
            assert(same_slot(r2, r, k));
            if keys.contains(k) {
                let i = choose|i: int| 0 <= i < keys.len() && keys[i] == k;
                assert(front[i] == k);
            }
        }
    }
}

/// An indexed log that holds content for `k` settles it, whatever else is
/// pending.
pub proof fn lemma_indexedlog_hit(
    s: FetchModel,
    store: IndexedLogView,
    typ: LocalStoreType,
    k: KeyView,
    e: EntryView,
)
    requires
        s.inv(),
        s.request_attrs == FileAttributes::spec_only_content(),
        store.found_at(k) == Some(e),
        !e.metadata.spec_is_lfs(),
        untouched(s, k) || settled(s, k, LazyFileView::IndexedLog(e)),
    ensures
        settled(s.fetch_indexedlog(store, typ), k, LazyFileView::IndexedLog(e)),
{
    let content = FileAttributes::spec_only_content();
    let pred = |x: KeyView| !s.lfs_pointers.contains_key(x) && s.actionable(x, content);
    let keys = s.pending_nonlfs(content);
    lemma_filter_member(s.pending, pred);
    assert forall|i: int| 0 <= i < keys.len() implies s.requested(#[trigger] keys[i]) by {
        assert(keys.contains(keys[i]));
    }
    lemma_probe_indexedlog_hit(s, store, keys, typ, k, e);
    if untouched(s, k) {
        assert(s.actionable(k, content));
        lemma_filter_keeps(s.pending, pred, k);
    }
}

/// A large-file store that finds nothing when asked by the key `k` leaves
/// the key as it was, as long as no pointer is known for it.
pub proof fn lemma_lfs_miss(s: FetchModel, store: LfsStoreView, typ: LocalStoreType, k: KeyView)
    requires
        s.lfs_pointers.get(k) is None,
        store.found_at(StoreKeyView::HgId(k)) is None,
    ensures
        same_slot(s.fetch_lfs(store, typ), s, k),
{
    let content = FileAttributes::spec_only_content();
    let asked = s.pending_all(content);
    let keys = s.pending_storekey(content);
    assert forall|i: int| 0 <= i < keys.len() implies (#[trigger] keys[i]).maybe_key() != Some(k)
        || store.found_at(keys[i]) is None by {
        assert(keys[i] == s.storekey(asked[i]));
    }
    lemma_probe_lfs_frame(s, store, keys, typ, k);
}

/// A large-file store that finds nothing under the hash that a known
/// pointer points to leaves the key as it was.
pub proof fn lemma_lfs_miss_pointed(
    s: FetchModel,
    store: LfsStoreView,
    typ: LocalStoreType,
    k: KeyView,
    ptr: LfsPointersEntry,
)
    requires
        s.lfs_pointers.get(k) == Some(ptr),
        store.found_at(StoreKeyView::Content(ptr.sha256, Some(k))) is None,
    ensures
        same_slot(s.fetch_lfs(store, typ), s, k),
{
    let content = FileAttributes::spec_only_content();
    let asked = s.pending_all(content);
    let keys = s.pending_storekey(content);
    assert forall|i: int| 0 <= i < keys.len() implies (#[trigger] keys[i]).maybe_key() != Some(k)
        || store.found_at(keys[i]) is None by {
        assert(keys[i] == s.storekey(asked[i]));
    }
    lemma_probe_lfs_frame(s, store, keys, typ, k);
}

/// A large file is on its way: nothing is known of `k` yet, or the pointer
/// `ptr` is, or the key is complete with the content `blob`.
pub open spec fn on_the_way(s: FetchModel, k: KeyView, ptr: LfsPointersEntry, blob: Seq<u8>) -> bool {
    untouched(s, k) || pointed(s, k, ptr) || settled(s, k, LazyFileView::Lfs(blob, ptr))
}

/// A large-file store that answers the question asked for `k` with pointer
/// and content settles the key when it is asked for it, among other keys.
pub proof fn lemma_probe_lfs_hit(
    s: FetchModel,
    store: LfsStoreView,
    keys: Seq<StoreKeyView>,
    typ: LocalStoreType,
    k: KeyView,
    asked: StoreKeyView,
    ptr: LfsPointersEntry,
    blob: Seq<u8>,
)
    requires
        s.inv(),
        forall|i: int|
            0 <= i < keys.len() ==> (#[trigger] keys[i]).maybe_key() is Some && s.requested(
                keys[i].maybe_key()->0,
            ),
        forall|i: int|
            0 <= i < keys.len() && (#[trigger] keys[i]).maybe_key() == Some(k) ==> keys[i] == asked,
        s.request_attrs == FileAttributes::spec_only_content(),
        store.found_at(asked) == Some(LfsStoreEntryView::PointerAndBlob(ptr, blob)),
        on_the_way(s, k, ptr, blob),
    ensures
        ({
            let r = s.probe_lfs(store, keys, typ);
            let c = LazyFileView::Lfs(blob, ptr);
            &&& on_the_way(r, k, ptr, blob)
            &&& keys.contains(asked) && asked.maybe_key() == Some(k) || settled(s, k, c)
                ==> settled(r, k, c)
        }),
    decreases keys.len(),
{
    if keys.len() > 0 {
        let c = LazyFileView::Lfs(blob, ptr);
        let sf = content_only(c);
        let front = keys.drop_last();
        assert forall|i: int| 0 <= i < front.len() implies (#[trigger] front[i]).maybe_key() is Some
            && s.requested(front[i].maybe_key()->0) by {
            assert(front[i] == keys[i]);
        }
        assert forall|i: int|
            0 <= i < front.len() && (#[trigger] front[i]).maybe_key() == Some(k) implies front[i]
            == asked by {
            assert(front[i] == keys[i]);
        }
        lemma_probe_lfs_hit(s, store, front, typ, k, asked, ptr, blob);
        lemma_probe_lfs_inv(s, store, front, typ);
        lemma_probe_lfs_inv(s, store, keys, typ);
        let r = s.probe_lfs(store, front, typ);
        let r2 = s.probe_lfs(store, keys, typ);
        let sk = keys.last();
        assert(sk == keys[keys.len() - 1]);
        if sk.maybe_key() == Some(k) {
            assert(sk == asked);
            assert(r.merged(k, sf) == sf);
            assert(sf.attrs().spec_has(r.request_attrs));
            assert(r2 == r.found_attributes(k, sf, Some(typ)));
            assert(r2.found.get(k) == Some(sf));
            assert(r2.lfs_pointers.get(k) is None);
            assert(r2.found.contains_key(k));
            assert(!r2.pending.contains(k));
        } else {
            let x = sk.maybe_key()->0;
            lemma_event_frame(r, x, k);
            assert(same_slot(r2, r, k));
            if keys.contains(asked) && asked.maybe_key() == Some(k) {
                let i = choose|i: int| 0 <= i < keys.len() && keys[i] == asked;
                assert(front[i] == asked);
            }
        }
    }
}

/// A large-file store that holds the content of a large file settles its
/// key, whatever else is pending: asked by key, if it also holds the
/// pointer; asked by content hash, if the pointer is already known.
pub proof fn lemma_lfs_hit(
    s: FetchModel,
    store: LfsStoreView,
    typ: LocalStoreType,
    k: KeyView,
    ptr: LfsPointersEntry,
    blob: Seq<u8>,
)
    requires
        s.inv(),
        s.request_attrs == FileAttributes::spec_only_content(),
        ptr.hgid == k.hgid,
        ptr.size == blob.len() as u64,
        store.blobs.get(ptr.sha256) == Some(blob),
        !store.unreadable.contains(k.hgid),
        untouched(s, k) ==> store.pointers.get(k.hgid) == Some(ptr),
        on_the_way(s, k, ptr, blob),
    ensures
        settled(s.fetch_lfs(store, typ), k, LazyFileView::Lfs(blob, ptr)),
{
    let content = FileAttributes::spec_only_content();
    let pred = |x: KeyView| s.actionable(x, content);
    let pending = s.pending_all(content);
    let keys = s.pending_storekey(content);
    let asked = if untouched(s, k) {
        StoreKeyView::HgId(k)
    } else {
        StoreKeyView::Content(ptr.sha256, Some(k))
    };
    lemma_pending_storekey(s, content);
    lemma_filter_member(s.pending, pred);
    assert forall|i: int|
        0 <= i < keys.len() && (#[trigger] keys[i]).maybe_key() == Some(k) implies keys[i]
        == asked by {
        assert(keys[i] == s.storekey(pending[i]));
        assert(pending.contains(pending[i]));
    }
    assert(store.found_at(asked) == Some(LfsStoreEntryView::PointerAndBlob(ptr, blob)));
    lemma_probe_lfs_hit(s, store, keys, typ, k, asked, ptr, blob);
    if untouched(s, k) || pointed(s, k, ptr) {
        assert(s.actionable(k, content));
        lemma_filter_keeps(s.pending, pred, k);
        let j = choose|j: int| 0 <= j < pending.len() && pending[j] == k;
        assert(keys[j] == s.storekey(k));
    }
}

// ---------------------------------------------------------------------
// Pointers in an indexed log
// ---------------------------------------------------------------------
/// Only the pointer `ptr` is known of `k`: the key is pending and nothing
/// was found for it.
pub open spec fn pointed(s: FetchModel, k: KeyView, ptr: LfsPointersEntry) -> bool {
    slot(s, k) == (Slot { pending: true, found: None, pointer: Some(ptr) })
}

/// An indexed log that holds, under `k`, an entry flagged as a large-file
/// pointer: asked among other keys, it makes the pointer known where the
/// policy is to follow pointers, and leaves the key as it was where the
/// policy is to ignore them.
pub proof fn lemma_probe_indexedlog_pointer(
    s: FetchModel,
    store: IndexedLogView,
    keys: Seq<KeyView>,
    typ: LocalStoreType,
    k: KeyView,
    ptr: LfsPointersEntry,
)
    requires
        store.found_at(k) == Some(pointer_entry(k, ptr)),
        ptr.hgid == k.hgid,
        untouched(s, k) || pointed(s, k, ptr),
    ensures
        ({
            let r = s.probe_indexedlog(store, keys, typ);
            &&& r.same_settings(s)
            &&& untouched(r, k) || pointed(r, k, ptr)
            &&& s.extstored_policy == ExtStoredPolicy::Use && (keys.contains(k) || pointed(
                s,
                k,
                ptr,
            )) ==> pointed(r, k, ptr)
            &&& s.extstored_policy != ExtStoredPolicy::Use ==> same_slot(r, s, k)
        }),
    decreases keys.len(),
{
    if keys.len() > 0 {
        let front = keys.drop_last();
        lemma_probe_indexedlog_pointer(s, store, front, typ, k, ptr);
        let r = s.probe_indexedlog(store, front, typ);
        let r2 = s.probe_indexedlog(store, keys, typ);
        let x = keys.last();
        assert(x == keys[keys.len() - 1]);
        if x == k {
            lemma_pointer_entry(k, ptr);
            if s.extstored_policy == ExtStoredPolicy::Use {
                assert(r2 == r.found_pointer(k, ptr, typ));
            } else {
                assert(r2 == r);
            }
        } else {
            lemma_event_frame(r, x, k);
            assert(same_slot(r2, r, k));
            if keys.contains(k) {
                let i = choose|i: int| 0 <= i < keys.len() && keys[i] == k;
                assert(front[i] == k);
            }
        }
    }
}

/// An indexed log that holds, under `k`, an entry flagged as a large-file
/// pointer makes the pointer known where the policy is to follow pointers,
/// and leaves the key as it was where the policy is to ignore them.
pub proof fn lemma_indexedlog_pointer(
    s: FetchModel,
    store: IndexedLogView,
    typ: LocalStoreType,
    k: KeyView,
    ptr: LfsPointersEntry,
)
    requires
        s.request_attrs == FileAttributes::spec_only_content(),
        store.found_at(k) == Some(pointer_entry(k, ptr)),
        ptr.hgid == k.hgid,
        untouched(s, k) || pointed(s, k, ptr),
    ensures
        ({
            let r = s.fetch_indexedlog(store, typ);
            &&& r.same_settings(s)
            &&& s.extstored_policy == ExtStoredPolicy::Use ==> pointed(r, k, ptr)
            &&& s.extstored_policy != ExtStoredPolicy::Use ==> same_slot(r, s, k)
        }),
{
    let content = FileAttributes::spec_only_content();
    let pred = |x: KeyView| !s.lfs_pointers.contains_key(x) && s.actionable(x, content);
    let keys = s.pending_nonlfs(content);
    lemma_probe_indexedlog_pointer(s, store, keys, typ, k, ptr);
    if untouched(s, k) {
        assert(s.actionable(k, content));
        lemma_filter_keeps(s.pending, pred, k);
    }
}

/// No stage of a fetch changes what is known of a key that is not
/// pending.
pub proof fn lemma_stage_frames(store: FileStoreView, s: FetchModel, k: KeyView)
    requires
        !s.pending.contains(k),
    ensures
        same_slot(store.probe_aux_tiers(s), s, k),
        same_slot(store.probe_indexedlog_tiers(s), s, k),
        same_slot(store.probe_lfs_tiers(s), s, k),
        same_slot(store.probe_network(s), s, k),
        same_slot(store.probe_lfs_remote(s).0, s, k),
        same_slot(store.probe_legacy(s), s, k),
{
    lemma_not_pending_frame(s, k);
    assert(same_slot(store.probe_aux_tiers(s), s, k)) by {
        let s1 = match store.aux_cache {
            Some(t) => s.fetch_aux_indexedlog(t),
            None => s,
        };
        if let Some(t) = store.aux_cache {
            assert(same_slot(s.fetch_aux_indexedlog(t), s, k));
        }
        lemma_not_pending_frame(s1, k);
        if let Some(t) = store.aux_local {
            assert(same_slot(s1.fetch_aux_indexedlog(t), s1, k));
        }
    }
    assert(same_slot(store.probe_indexedlog_tiers(s), s, k)) by {
        let s1 = match store.indexedlog_cache {
            Some(t) => s.fetch_indexedlog(t, LocalStoreType::Cache),
            None => s,
        };
        if let Some(t) = store.indexedlog_cache {
            assert(same_slot(s.fetch_indexedlog(t, LocalStoreType::Cache), s, k));
        }
        lemma_not_pending_frame(s1, k);
        if let Some(t) = store.indexedlog_local {
            assert(same_slot(s1.fetch_indexedlog(t, LocalStoreType::Local), s1, k));
        }
    }
    assert(same_slot(store.probe_lfs_tiers(s), s, k)) by {
        let s1 = match store.lfs_cache {
            Some(t) => s.fetch_lfs(t, LocalStoreType::Cache),
            None => s,
        };
        if let Some(t) = store.lfs_cache {
            assert(same_slot(s.fetch_lfs(t, LocalStoreType::Cache), s, k));
        }
        lemma_not_pending_frame(s1, k);
        if let Some(t) = store.lfs_local {
            assert(same_slot(s1.fetch_lfs(t, LocalStoreType::Local), s1, k));
        }
    }
    assert(same_slot(store.probe_network(s), s, k)) by {
        let s1 = match store.memcache {
            Some(t) => s.fetch_memcache(t),
            None => s,
        };
        if let Some(t) = store.memcache {
            assert(same_slot(s.fetch_memcache(t), s, k));
        }
        lemma_not_pending_frame(s1, k);
        if let Some(t) = store.edenapi {
            assert(same_slot(s1.fetch_edenapi(t), s1, k));
        }
    }
    assert(same_slot(store.probe_lfs_remote(s).0, s, k)) by {
        if store.lfs_remote is Some {
            lemma_lfs_remote_frame(
                s,
                store.lfs_remote->0,
                LfsTiers { local: store.lfs_local, cache: store.lfs_cache },
                k,
            );
        }
    }
    assert(same_slot(store.probe_legacy(s), s, k)) by {
        if let Some(t) = store.contentstore {
            assert(same_slot(s.fetch_contentstore(t), s, k));
        }
    }
}

/// Once `k` is settled, the stages after the large-file tiers leave it so.
pub proof fn lemma_settled_stays(store: FileStoreView, s: FetchModel, k: KeyView, c: LazyFileView)
    requires
        settled(s, k, c),
    ensures
        settled(store.probe_legacy(store.probe_lfs_remote(store.probe_network(s)).0), k, c),
        store.probe_legacy(store.probe_lfs_remote(store.probe_network(s)).0).same_settings(s),
{
    lemma_stage_frames(store, s, k);
    let s1 = store.probe_network(s);
    lemma_stage_frames(store, s1, k);
    let s2 = store.probe_lfs_remote(s1).0;
    lemma_stage_frames(store, s2, k);
}

/// A key that is settled when the tiers have been asked is complete in the
/// result of a fetch for content, with the content it was settled with.
pub proof fn lemma_settled_result(s: FetchModel, k: KeyView, c: LazyFileView)
    requires
        settled(s, k, c),
        s.request_attrs == FileAttributes::spec_only_content(),
    ensures
        s.derive_computable().written().finish().complete.contains_key(k),
        s.derive_computable().written().finish().complete[k] == content_only(c),
{
    if s.compute_aux_data {
        assert(s.found.map[k] == content_only(c));
        assert(!s.derives_aux(k));
        assert(!s.derive_touches(k));
        lemma_derive_keys_slot(s, s.found.keys, k);
    }
    let d = s.derive_computable();
    assert(same_slot(d, s, k));
    assert(d.written().is_complete(k));
    assert(d.written().found.map[k] == content_only(c));
}

} // verus!
