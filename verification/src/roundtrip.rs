//! Round trips: what was written to a store is what a fetch brings back,
//! whatever else was written with it and whatever else is fetched with it.

use crate::attrs::FileAttributes;
use crate::codec::{file_content_of, lemma_no_header, marker_at};
use crate::file::LazyFileView;
use crate::frames::same_slot;
use crate::keys::KeyView;
use crate::model::{lemma_init_inv, lemma_seq_dedup, FetchModel};
use crate::probe::{lemma_fetch_indexedlog_inv, lemma_fetch_lfs_inv};
use crate::settle::{
    content_only, lemma_content_request_skips_aux, lemma_indexedlog_hit, lemma_indexedlog_miss,
    lemma_indexedlog_pointer, lemma_lfs_hit, lemma_lfs_miss, lemma_lfs_miss_pointed,
    lemma_settled_result, lemma_settled_stays, lemma_stage_frames, on_the_way, pointed, settled,
    untouched,
};
use crate::store::{lemma_probe_aux_tiers_inv, lemma_probe_indexedlog_tiers_inv, FileStoreView};
use crate::stores::IndexedLogView;
use crate::types::{EntryView, LfsPointersEntry, LocalStoreType, Metadata, StoreKeyView};
use crate::write::{lfs_pointer_of, pointer_entry};
use vstd::prelude::*;

verus! {

// ---------------------------------------------------------------------
// What a fetch brings back from the local stores
// ---------------------------------------------------------------------
/// The state in which the indexed logs are asked, in a fetch of `keys` for
/// content: nothing is known of a requested key yet.
proof fn lemma_before_indexedlogs(store: FileStoreView, keys: Seq<KeyView>, k: KeyView)
    requires
        keys.contains(k),
    ensures
        ({
            let content = FileAttributes::spec_only_content();
            let s0 = FetchModel::init(keys, content, store.extstored_policy, store.fallbacks);
            let s1 = store.probe_aux_tiers(s0);
            &&& s1.inv()
            &&& untouched(s1, k)
            &&& s1.request_attrs == content
        }),
{
    let content = FileAttributes::spec_only_content();
    let s0 = FetchModel::init(keys, content, store.extstored_policy, store.fallbacks);
    lemma_init_inv(keys, content, store.extstored_policy, store.fallbacks);
    lemma_seq_dedup(keys);
    assert(untouched(s0, k));
    lemma_probe_aux_tiers_inv(store, s0);
    let a = match store.aux_cache {
        Some(t) => s0.fetch_aux_indexedlog(t),
        None => s0,
    };
    if let Some(t) = store.aux_cache {
        lemma_content_request_skips_aux(s0, t, k);
    }
    if let Some(t) = store.aux_local {
        lemma_content_request_skips_aux(a, t, k);
    }
    assert(same_slot(store.probe_aux_tiers(s0), s0, k));
}

/// A fetch for content brings back what the local indexed log holds under
/// a requested key, whatever other keys are requested with it.
///
/// The tier that is asked before the local indexed log, the indexed-log
/// cache, must find nothing under the key, or the same entry.
pub proof fn lemma_fetch_from_log(
    store: FileStoreView,
    keys: Seq<KeyView>,
    k: KeyView,
    e: EntryView,
)
    requires
        keys.contains(k),
        store.indexedlog_local matches Some(l) && l.found_at(k) == Some(e),
        !e.metadata.spec_is_lfs(),
        store.indexedlog_cache matches Some(c) ==> c.found_at(k) is None || c.found_at(k) == Some(
            e,
        ),
    ensures
        ({
            let r = store.fetch_result(keys, FileAttributes::spec_only_content());
            &&& r.complete.contains_key(k)
            &&& r.complete[k] == content_only(LazyFileView::IndexedLog(e))
        }),
{
    let content = FileAttributes::spec_only_content();
    let c = LazyFileView::IndexedLog(e);
    reveal(FileStoreView::probed);
    let s0 = FetchModel::init(keys, content, store.extstored_policy, store.fallbacks);
    let s1 = store.probe_aux_tiers(s0);
    lemma_before_indexedlogs(store, keys, k);
    let s2 = match store.indexedlog_cache {
        Some(t) => s1.fetch_indexedlog(t, LocalStoreType::Cache),
        None => s1,
    };
    if let Some(t) = store.indexedlog_cache {
        if t.found_at(k) is Some {
            lemma_indexedlog_hit(s1, t, LocalStoreType::Cache, k, e);
        } else {
            lemma_indexedlog_miss(s1, t, LocalStoreType::Cache, k);
        }
        lemma_fetch_indexedlog_inv(s1, t, LocalStoreType::Cache);
    }
    let log = store.indexedlog_local->0;
    let s3 = s2.fetch_indexedlog(log, LocalStoreType::Local);
    lemma_indexedlog_hit(s2, log, LocalStoreType::Local, k, e);
    lemma_fetch_indexedlog_inv(s2, log, LocalStoreType::Local);
    assert(s3 == store.probe_indexedlog_tiers(s1));
    lemma_stage_frames(store, s3, k);
    let s4 = store.probe_lfs_tiers(s3);
    assert(settled(s4, k, c));
    lemma_settled_stays(store, s4, k, c);
    let s7 = store.probe_legacy(store.probe_lfs_remote(store.probe_network(s4)).0);
    assert(store.probed(keys, content).0 == s7);
    lemma_settled_result(s7, k, c);
}

/// The log, if it is configured, finds under `k` nothing, or the pointer
/// `ptr` as a flagged entry.
pub open spec fn pointer_or_nothing(
    log: Option<IndexedLogView>,
    k: KeyView,
    ptr: LfsPointersEntry,
) -> bool {
    log matches Some(l) ==> l.found_at(k) is None || l.found_at(k) == Some(pointer_entry(k, ptr))
}

/// The state after the indexed logs were asked for a key under which they
/// hold a pointer or nothing: the pointer is known, or nothing is; and
/// nothing is where the policy is to ignore pointers.
proof fn lemma_after_indexedlogs(
    store: FileStoreView,
    s1: FetchModel,
    k: KeyView,
    ptr: LfsPointersEntry,
)
    requires
        s1.inv(),
        untouched(s1, k),
        s1.request_attrs == FileAttributes::spec_only_content(),
        ptr.hgid == k.hgid,
        pointer_or_nothing(store.indexedlog_cache, k, ptr),
        pointer_or_nothing(store.indexedlog_local, k, ptr),
    ensures
        ({
            let s3 = store.probe_indexedlog_tiers(s1);
            &&& s3.inv()
            &&& s3.request_attrs == FileAttributes::spec_only_content()
            &&& untouched(s3, k) || pointed(s3, k, ptr)
        }),
{
    let s2 = match store.indexedlog_cache {
        Some(t) => s1.fetch_indexedlog(t, LocalStoreType::Cache),
        None => s1,
    };
    if let Some(t) = store.indexedlog_cache {
        if t.found_at(k) is Some {
            lemma_indexedlog_pointer(s1, t, LocalStoreType::Cache, k, ptr);
        } else {
            lemma_indexedlog_miss(s1, t, LocalStoreType::Cache, k);
        }
    }
    assert(untouched(s2, k) || pointed(s2, k, ptr));
    assert(s2.request_attrs == s1.request_attrs);
    if let Some(t) = store.indexedlog_local {
        if t.found_at(k) is Some {
            lemma_indexedlog_pointer(s2, t, LocalStoreType::Local, k, ptr);
        } else {
            lemma_indexedlog_miss(s2, t, LocalStoreType::Local, k);
        }
    }
    lemma_probe_indexedlog_tiers_inv(store, s1);
}

/// A fetch for content brings back the large file that the local
/// large-file store holds for a requested key, whatever other keys are
/// requested with it, and whether pointers in the indexed logs are followed
/// or ignored.
///
/// The tiers that are asked before the local large-file store must hold
/// nothing else for the key: each indexed log nothing or the pointer, the
/// large-file cache no pointer for the revision, and under the content hash
/// nothing or the same content.
pub proof fn lemma_fetch_from_lfs(
    store: FileStoreView,
    keys: Seq<KeyView>,
    k: KeyView,
    ptr: LfsPointersEntry,
    blob: Seq<u8>,
)
    requires
        keys.contains(k),
        ptr.hgid == k.hgid,
        ptr.size == blob.len() as u64,
        store.lfs_local matches Some(l) && l.pointers.get(k.hgid) == Some(ptr) && l.blobs.get(
            ptr.sha256,
        ) == Some(blob) && !l.unreadable.contains(k.hgid),
        pointer_or_nothing(store.indexedlog_cache, k, ptr),
        pointer_or_nothing(store.indexedlog_local, k, ptr),
        store.lfs_cache matches Some(c) ==> !c.pointers.contains_key(k.hgid) && (c.blobs.get(
            ptr.sha256,
        ) is None || c.blobs.get(ptr.sha256) == Some(blob)),
    ensures
        ({
            let r = store.fetch_result(keys, FileAttributes::spec_only_content());
            &&& r.complete.contains_key(k)
            &&& r.complete[k] == content_only(LazyFileView::Lfs(blob, ptr))
        }),
{
    let content = FileAttributes::spec_only_content();
    let c = LazyFileView::Lfs(blob, ptr);
    reveal(FileStoreView::probed);
    let s0 = FetchModel::init(keys, content, store.extstored_policy, store.fallbacks);
    let s1 = store.probe_aux_tiers(s0);
    lemma_before_indexedlogs(store, keys, k);
    let s3 = store.probe_indexedlog_tiers(s1);
    lemma_after_indexedlogs(store, s1, k, ptr);
    let s4 = match store.lfs_cache {
        Some(t) => s3.fetch_lfs(t, LocalStoreType::Cache),
        None => s3,
    };
    if let Some(t) = store.lfs_cache {
        if untouched(s3, k) {
            lemma_lfs_miss(s3, t, LocalStoreType::Cache, k);
        } else if t.found_at(StoreKeyView::Content(ptr.sha256, Some(k))) is Some {
            lemma_lfs_hit(s3, t, LocalStoreType::Cache, k, ptr, blob);
        } else {
            lemma_lfs_miss_pointed(s3, t, LocalStoreType::Cache, k, ptr);
        }
        lemma_fetch_lfs_inv(s3, t, LocalStoreType::Cache);
    }
    assert(on_the_way(s4, k, ptr, blob));
    let lfs = store.lfs_local->0;
    let s5 = s4.fetch_lfs(lfs, LocalStoreType::Local);
    lemma_lfs_hit(s4, lfs, LocalStoreType::Local, k, ptr, blob);
    lemma_fetch_lfs_inv(s4, lfs, LocalStoreType::Local);
    assert(s5 == store.probe_lfs_tiers(s3));
    lemma_settled_stays(store, s5, k, c);
    let s8 = store.probe_legacy(store.probe_lfs_remote(store.probe_network(s5)).0);
    assert(store.probed(keys, content).0 == s8);
    lemma_settled_result(s8, k, c);
}

// ---------------------------------------------------------------------
// What a batch of writes leaves in the local stores
// ---------------------------------------------------------------------
/// The entry is written to the local indexed log as it is: it is no
/// pointer and not larger than the large-file threshold.
pub open spec fn is_small(store: FileStoreView, e: (KeyView, Seq<u8>, Metadata)) -> bool {
    !e.2.spec_is_lfs() && !store.is_large(e.1)
}

/// The entry is written as a large file: it is no pointer and larger than
/// the large-file threshold.
pub open spec fn is_big(store: FileStoreView, e: (KeyView, Seq<u8>, Metadata)) -> bool {
    !e.2.spec_is_lfs() && store.is_large(e.1)
}

/// `w` is `store` but for what its local stores and its legacy store hold,
/// and for the fallback counts.
pub open spec fn wrote_locally(store: FileStoreView, w: FileStoreView) -> bool {
    &&& w.lfs_threshold_bytes == store.lfs_threshold_bytes
    &&& w.extstored_policy == store.extstored_policy
    &&& w.indexedlog_cache == store.indexedlog_cache
    &&& w.lfs_cache == store.lfs_cache
    &&& w.aux_cache == store.aux_cache
    &&& w.aux_local == store.aux_local
    &&& w.memcache == store.memcache
    &&& w.edenapi == store.edenapi
    &&& w.lfs_remote == store.lfs_remote
    &&& w.indexedlog_local is Some == store.indexedlog_local is Some
    &&& w.lfs_local is Some == store.lfs_local is Some
    &&& w.indexedlog_local matches Some(l) ==> l.writable == store.indexedlog_local->0.writable
        && l.unreadable == store.indexedlog_local->0.unreadable
    &&& w.lfs_local matches Some(l) ==> l.writable == store.lfs_local->0.writable && l.unreadable
        == store.lfs_local->0.unreadable
}

/// Writing touches the local stores and the legacy store only, and a batch
/// that ended without an error was written to its end.
pub proof fn lemma_write_batch_local(store: FileStoreView, es: Seq<(KeyView, Seq<u8>, Metadata)>)
    ensures
        wrote_locally(store, store.write_batch(es).0),
        es.len() > 0 && store.write_batch(es).1 is None ==> store.write_batch(es.drop_last()).1
            is None,
    decreases es.len(),
{
    if es.len() > 0 {
        lemma_write_batch_local(store, es.drop_last());
    }
}

/// The local stores that the entry goes to are there and accept writes:
/// the indexed log for a small file; for a large file the large-file
/// store, and the indexed log if one is configured.
pub open spec fn accepted(store: FileStoreView, e: (KeyView, Seq<u8>, Metadata)) -> bool {
    &&& !e.2.spec_is_lfs()
    &&& is_small(store, e) ==> (store.indexedlog_local matches Some(l) && l.writable)
    &&& is_big(store, e) ==> (store.lfs_local matches Some(l) && l.writable) && (
    store.indexedlog_local matches Some(l) ==> l.writable)
}

/// Success is owed to a batch without pointers if the local stores that
/// each entry goes to are there and accept writes.
pub proof fn lemma_write_batch_succeeds(
    store: FileStoreView,
    es: Seq<(KeyView, Seq<u8>, Metadata)>,
)
    requires
        forall|j: int| 0 <= j < es.len() ==> accepted(store, #[trigger] es[j]),
    ensures
        store.write_batch(es).1 is None,
    decreases es.len(),
{
    if es.len() > 0 {
        let front = es.drop_last();
        assert forall|j: int| 0 <= j < front.len() implies accepted(store, #[trigger] front[j]) by {
            assert(front[j] == es[j]);
        }
        lemma_write_batch_succeeds(store, front);
        lemma_write_batch_local(store, front);
        let last = es[es.len() - 1];
        assert(accepted(store, last));
        assert(is_small(store, last) || is_big(store, last));
    }
}

/// No later entry of the batch is filed in the local indexed log under the
/// key of the entry at `i`: each later entry is a pointer or has another
/// key.
pub open spec fn last_for_key(es: Seq<(KeyView, Seq<u8>, Metadata)>, i: int) -> bool {
    forall|j: int| i < j < es.len() && !(#[trigger] es[j]).2.spec_is_lfs() ==> es[j].0 != es[i].0
}

/// After a batch was written, the local indexed log holds each small entry
/// of it under its key, unless a later entry of the batch was filed under
/// the same key.
pub proof fn lemma_write_batch_log(
    store: FileStoreView,
    es: Seq<(KeyView, Seq<u8>, Metadata)>,
    i: int,
)
    requires
        store.write_batch(es).1 is None,
        0 <= i < es.len(),
        is_small(store, es[i]),
        last_for_key(es, i),
    ensures
        store.write_batch(es).0.indexedlog_local is Some,
        store.write_batch(es).0.indexedlog_local->0.entries.get(es[i].0) == Some(
            EntryView { key: es[i].0, content: es[i].1, metadata: es[i].2 },
        ),
    decreases es.len(),
{
    let front = es.drop_last();
    let last = es[es.len() - 1];
    lemma_write_batch_local(store, es);
    lemma_write_batch_local(store, front);
    let s = store.write_batch(front).0;
    assert(store.write_batch(es).0 == s.write_one(last.0, last.1, last.2).0);
    if i < es.len() - 1 {
        assert(front[i] == es[i]);
        assert(last_for_key(front, i)) by {
            assert forall|j: int| i < j < front.len() && !(#[trigger] front[j]).2.spec_is_lfs()
                implies front[j].0 != front[i].0 by {
                assert(front[j] == es[j]);
            }
        }
        lemma_write_batch_log(store, front, i);
    }
}

/// A later large entry of a batch does not stand in the way of the large
/// entry at `i`: it is written for another revision, and under another
/// content hash unless its content is the same.
pub open spec fn lfs_kept(
    store: FileStoreView,
    es: Seq<(KeyView, Seq<u8>, Metadata)>,
    i: int,
    j: int,
) -> bool {
    is_big(store, es[j]) ==> {
        &&& es[j].0.hgid != es[i].0.hgid
        &&& lfs_pointer_of(es[j].0.hgid, es[j].1).sha256 == lfs_pointer_of(
            es[i].0.hgid,
            es[i].1,
        ).sha256 ==> file_content_of(es[j].1) == file_content_of(es[i].1)
    }
}

/// After a batch was written, the local stores hold each large entry of
/// it: the large-file store the content under its hash and the pointer
/// under its revision, and the local indexed log, if one is configured, the
/// pointer as a flagged entry under the key; unless a later entry of the
/// batch stands in the way.
pub proof fn lemma_write_batch_lfs(
    store: FileStoreView,
    es: Seq<(KeyView, Seq<u8>, Metadata)>,
    i: int,
)
    requires
        store.write_batch(es).1 is None,
        0 <= i < es.len(),
        is_big(store, es[i]),
        last_for_key(es, i),
        forall|j: int| i < j < es.len() ==> #[trigger] lfs_kept(store, es, i, j),
    ensures
        ({
            let w = store.write_batch(es).0;
            let ptr = lfs_pointer_of(es[i].0.hgid, es[i].1);
            &&& w.lfs_local is Some
            &&& w.lfs_local->0.pointers.get(es[i].0.hgid) == Some(ptr)
            &&& w.lfs_local->0.blobs.get(ptr.sha256) == Some(file_content_of(es[i].1))
            &&& w.indexedlog_local matches Some(l) ==> l.entries.get(es[i].0) == Some(
                pointer_entry(es[i].0, ptr),
            )
        }),
    decreases es.len(),
{
    let front = es.drop_last();
    let last = es[es.len() - 1];
    lemma_write_batch_local(store, es);
    lemma_write_batch_local(store, front);
    let s = store.write_batch(front).0;
    assert(store.write_batch(es).0 == s.write_one(last.0, last.1, last.2).0);
    if i < es.len() - 1 {
        assert(front[i] == es[i]);
        assert(last_for_key(front, i)) by {
            assert forall|j: int| i < j < front.len() && !(#[trigger] front[j]).2.spec_is_lfs()
                implies front[j].0 != front[i].0 by {
                assert(front[j] == es[j]);
            }
        }
        assert forall|j: int| i < j < front.len() implies #[trigger] lfs_kept(
            store,
            front,
            i,
            j,
        ) by {
            assert(front[j] == es[j]);
            assert(lfs_kept(store, es, i, j));
        }
        lemma_write_batch_lfs(store, front, i);
        assert(lfs_kept(store, es, i, es.len() - 1));
    }
}

// ---------------------------------------------------------------------
// Write, then fetch
// ---------------------------------------------------------------------
/// Writing a batch and then fetching content brings back, for each small
/// file of the batch that is requested, the bytes that were written: the
/// stored bytes as they were, and as file content the same bytes without
/// their copy header. This holds whatever else the batch wrote and whatever
/// other keys are requested; of two entries filed under the same key, the
/// later one is the one that was written.
///
/// The local indexed log must be able to read the key. The tier that is
/// asked before it, the indexed-log cache, must find nothing under the key,
/// or the same entry; it may fail to read the key.
pub proof fn lemma_write_then_fetch(
    store: FileStoreView,
    es: Seq<(KeyView, Seq<u8>, Metadata)>,
    i: int,
    keys: Seq<KeyView>,
)
    requires
        store.write_batch(es).1 is None,
        0 <= i < es.len(),
        is_small(store, es[i]),
        last_for_key(es, i),
        keys.contains(es[i].0),
        store.indexedlog_local matches Some(l) ==> !l.unreadable.contains(es[i].0),
        store.indexedlog_cache matches Some(c) ==> c.found_at(es[i].0) is None || c.found_at(
            es[i].0,
        ) == Some(EntryView { key: es[i].0, content: es[i].1, metadata: es[i].2 }),
    ensures
        ({
            let written = store.write_batch(es).0;
            let r = written.fetch_result(keys, FileAttributes::spec_only_content());
            let (key, bytes, meta) = es[i];
            &&& r.complete.contains_key(key)
            &&& r.complete[key].content is Some
            &&& r.complete[key].aux_data is None
            &&& r.complete[key].content->0.hg_content() == bytes
            &&& r.complete[key].content->0.file_content() == file_content_of(bytes)
            &&& !marker_at(bytes, 0) ==> r.complete[key].content->0.file_content() == bytes
            &&& r.complete[key].content->0.metadata() == meta
        }),
{
    let (key, bytes, meta) = es[i];
    if !marker_at(bytes, 0) {
        lemma_no_header(bytes);
    }
    let w = store.write_batch(es).0;
    lemma_write_batch_local(store, es);
    lemma_write_batch_log(store, es, i);
    lemma_fetch_from_log(w, keys, key, EntryView { key, content: bytes, metadata: meta });
}

/// Writing a batch and then fetching content brings back, for each file of
/// the batch that is larger than the large-file threshold and is requested,
/// the file content that was written. Its content is in the local
/// large-file store under its hash; a pointer to it is there under its
/// revision, and in the local indexed log, if one is configured, as a
/// flagged entry under its key. This holds whatever else the batch wrote,
/// whatever other keys are requested, and whether pointers in the indexed
/// logs are followed or ignored, as long as no later entry of the batch
/// stands in the way.
///
/// The tiers that are asked before the local stores must hold nothing else
/// for the key: the indexed-log cache must find nothing or the same
/// pointer, the large-file cache must hold no pointer for the revision, and
/// under the content hash nothing or the same content. The local
/// large-file store must be able to read the key; the other tiers may fail
/// to read it.
pub proof fn lemma_write_large_then_fetch(
    store: FileStoreView,
    es: Seq<(KeyView, Seq<u8>, Metadata)>,
    i: int,
    keys: Seq<KeyView>,
)
    requires
        store.write_batch(es).1 is None,
        0 <= i < es.len(),
        is_big(store, es[i]),
        last_for_key(es, i),
        forall|j: int| i < j < es.len() ==> #[trigger] lfs_kept(store, es, i, j),
        keys.contains(es[i].0),
        store.lfs_local matches Some(l) ==> !l.unreadable.contains(es[i].0.hgid),
        pointer_or_nothing(
            store.indexedlog_cache,
            es[i].0,
            lfs_pointer_of(es[i].0.hgid, es[i].1),
        ),
        store.lfs_cache matches Some(c) ==> !c.pointers.contains_key(es[i].0.hgid) && (
        c.blobs.get(lfs_pointer_of(es[i].0.hgid, es[i].1).sha256) is None || c.blobs.get(
            lfs_pointer_of(es[i].0.hgid, es[i].1).sha256,
        ) == Some(file_content_of(es[i].1))),
    ensures
        ({
            let written = store.write_batch(es).0;
            let (key, bytes, meta) = es[i];
            let ptr = lfs_pointer_of(key.hgid, bytes);
            let r = written.fetch_result(keys, FileAttributes::spec_only_content());
            &&& written.lfs_local is Some
            &&& written.lfs_local->0.pointers.get(key.hgid) == Some(ptr)
            &&& written.lfs_local->0.blobs.get(ptr.sha256) == Some(file_content_of(bytes))
            &&& written.indexedlog_local matches Some(l) ==> l.entries.get(key) == Some(
                pointer_entry(key, ptr),
            )
            &&& r.complete.contains_key(key)
            &&& r.complete[key].content is Some
            &&& r.complete[key].aux_data is None
            &&& r.complete[key].content->0.file_content() == file_content_of(bytes)
        }),
{
    let (key, bytes, meta) = es[i];
    let w = store.write_batch(es).0;
    lemma_write_batch_local(store, es);
    lemma_write_batch_lfs(store, es, i);
    lemma_fetch_from_lfs(w, keys, key, lfs_pointer_of(key.hgid, bytes), file_content_of(bytes));
}

} // verus!
