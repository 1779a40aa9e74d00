//! Where fetched values come from: a store that has only tiers on local
//! disk returns nothing that was not in one of them when the fetch began.

use crate::attrs::FileAttributes;
use crate::codec::{aux_parses, parsed_aux, sha256_digest};
use crate::file::{LazyFileView, StoreFileView};
use crate::keys::KeyView;
use crate::model::FetchModel;
use crate::store::{lemma_derived_inv, FileStoreView};
use crate::stores::{IndexedLogView, LfsStoreView};
use crate::types::{
    EntryView, FileAuxDataView, LfsPointersEntry, LocalStoreType, StoreKeyView,
};
use vstd::prelude::*;

verus! {

/// The log is there and holds `e` under `k`.
pub open spec fn log_has(log: Option<IndexedLogView>, k: KeyView, e: EntryView) -> bool {
    log matches Some(l) && l.entries.get(k) == Some(e)
}

/// The large-file store is there and holds `blob` under the hash that `ptr`
/// points to.
pub open spec fn lfs_has(lfs: Option<LfsStoreView>, ptr: LfsPointersEntry, blob: Seq<u8>) -> bool {
    lfs matches Some(l) && l.blobs.get(ptr.sha256) == Some(blob)
}

/// The content `c` is in a tier on local disk: it is an entry that an
/// indexed log holds under `k`, or content that a large-file store holds
/// under the hash of its pointer.
pub open spec fn content_in_store(store: FileStoreView, k: KeyView, c: LazyFileView) -> bool {
    match c {
        LazyFileView::IndexedLog(e) => log_has(store.indexedlog_cache, k, e) || log_has(
            store.indexedlog_local,
            k,
            e,
        ),
        LazyFileView::Lfs(blob, ptr) => lfs_has(store.lfs_cache, ptr, blob) || lfs_has(
            store.lfs_local,
            ptr,
            blob,
        ),
        _ => false,
    }
}

/// The log is there and holds, under `k`, the stored form of `a`.
pub open spec fn aux_in_log(log: Option<IndexedLogView>, k: KeyView, a: FileAuxDataView) -> bool {
    log matches Some(l) && l.entries.contains_key(k) && aux_parses(l.entries.map[k].content) && a
        == parsed_aux(l.entries.map[k].content)@
}

/// The auxiliary data `a` is in a tier on local disk, or is the SHA-256 of
/// the file content of content that is.
pub open spec fn aux_in_store(store: FileStoreView, k: KeyView, a: FileAuxDataView) -> bool {
    ||| aux_in_log(store.aux_cache, k, a)
    ||| aux_in_log(store.aux_local, k, a)
    ||| exists|c: LazyFileView|
        content_in_store(store, k, c) && a.content_sha256 == sha256_digest(c.file_content())
}

/// Everything the file carries is in a tier on local disk.
pub open spec fn file_sourced(store: FileStoreView, k: KeyView, sf: StoreFileView) -> bool {
    &&& sf.content matches Some(c) ==> content_in_store(store, k, c)
    &&& sf.aux_data matches Some(a) ==> aux_in_store(store, k, a)
}

/// Everything that was found is in a tier on local disk.
pub open spec fn sourced(store: FileStoreView, s: FetchModel) -> bool {
    forall|k: KeyView| #[trigger] s.found.contains_key(k) ==> file_sourced(store, k, s.found.map[k])
}

/// The store has only tiers on local disk.
pub open spec fn only_local(store: FileStoreView) -> bool {
    &&& store.memcache is None
    &&& store.edenapi is None
    &&& store.lfs_remote is None
    &&& store.contentstore is None
}

/// Merging in a file whose attributes are in the tiers keeps everything that
/// was found in the tiers.
pub proof fn lemma_found_attributes_sourced(
    store: FileStoreView,
    s: FetchModel,
    k: KeyView,
    sf: StoreFileView,
    typ: Option<LocalStoreType>,
)
    requires
        sourced(store, s),
        file_sourced(store, k, sf),
    ensures
        sourced(store, s.found_attributes(k, sf, typ)),
{
    let t = s.found_attributes(k, sf, typ);
    assert forall|x: KeyView| #[trigger] t.found.contains_key(x) implies file_sourced(
        store,
        x,
        t.found.map[x],
    ) by {
        if x == k {
            if s.found.contains_key(k) {
                assert(file_sourced(store, k, s.found.map[k]));
            }
        } else {
            assert(s.found.contains_key(x));
        }
    }
}

/// What an indexed log of the store delivers is in the tiers.
pub proof fn lemma_probe_indexedlog_sourced(
    store: FileStoreView,
    s: FetchModel,
    log: IndexedLogView,
    keys: Seq<KeyView>,
    typ: LocalStoreType,
)
    requires
        sourced(store, s),
        store.indexedlog_cache == Some(log) || store.indexedlog_local == Some(log),
    ensures
        sourced(store, s.probe_indexedlog(log, keys, typ)),
    decreases keys.len(),
{
    if keys.len() > 0 {
        lemma_probe_indexedlog_sourced(store, s, log, keys.drop_last(), typ);
        let r = s.probe_indexedlog(log, keys.drop_last(), typ);
        let k = keys.last();
        if log.entries.contains_key(k) {
            let e = log.entries.map[k];
            if !e.metadata.spec_is_lfs() {
                lemma_found_attributes_sourced(
                    store,
                    r,
                    k,
                    StoreFileView { content: Some(LazyFileView::IndexedLog(e)), aux_data: None },
                    Some(typ),
                );
            }
        }
    }
}

/// What an auxiliary-data log of the store delivers is in the tiers.
pub proof fn lemma_probe_aux_sourced(
    store: FileStoreView,
    s: FetchModel,
    log: IndexedLogView,
    keys: Seq<KeyView>,
)
    requires
        sourced(store, s),
        store.aux_cache == Some(log) || store.aux_local == Some(log),
    ensures
        sourced(store, s.probe_aux(log, keys).0),
    decreases keys.len(),
{
    if keys.len() > 0 {
        lemma_probe_aux_sourced(store, s, log, keys.drop_last());
        let (r, failed) = s.probe_aux(log, keys.drop_last());
        let k = keys.last();
        if !failed && log.entries.contains_key(k) {
            let e = log.entries.map[k];
            if aux_parses(e.content) {
                lemma_found_attributes_sourced(
                    store,
                    r,
                    k,
                    StoreFileView { content: None, aux_data: Some(parsed_aux(e.content)@) },
                    None,
                );
            }
        }
    }
}

/// What a large-file store of the store delivers is in the tiers.
pub proof fn lemma_probe_lfs_sourced(
    store: FileStoreView,
    s: FetchModel,
    lfs: LfsStoreView,
    keys: Seq<StoreKeyView>,
    typ: LocalStoreType,
)
    requires
        sourced(store, s),
        store.lfs_cache == Some(lfs) || store.lfs_local == Some(lfs),
    ensures
        sourced(store, s.probe_lfs(lfs, keys, typ)),
    decreases keys.len(),
{
    if keys.len() > 0 {
        lemma_probe_lfs_sourced(store, s, lfs, keys.drop_last(), typ);
        let r = s.probe_lfs(lfs, keys.drop_last(), typ);
        let sk = keys.last();
        match (sk.maybe_key(), lfs.fetch_available(sk)) {
            (Some(k), Some(crate::types::LfsStoreEntryView::PointerAndBlob(ptr, blob))) => {
                assert(lfs.blobs.get(ptr.sha256) == Some(blob));
                lemma_found_attributes_sourced(
                    store,
                    r,
                    k,
                    StoreFileView { content: Some(LazyFileView::Lfs(blob, ptr)), aux_data: None },
                    Some(typ),
                );
            },
            _ => {},
        }
    }
}

/// Auxiliary data derived from content that is in the tiers counts as being
/// in the tiers; derivation finds no new key.
pub proof fn lemma_derive_keys_sourced(store: FileStoreView, s: FetchModel, keys: Seq<KeyView>)
    requires
        sourced(store, s),
        forall|i: int| 0 <= i < keys.len() ==> s.found.contains_key(#[trigger] keys[i]),
    ensures
        sourced(store, s.derive_keys(keys)),
        forall|x: KeyView|
            s.derive_keys(keys).found.contains_key(x) <==> s.found.contains_key(x),
    decreases keys.len(),
{
    if keys.len() > 0 {
        let front = keys.drop_last();
        assert forall|i: int| 0 <= i < front.len() implies s.found.contains_key(
            #[trigger] front[i],
        ) by {
            assert(front[i] == keys[i]);
        }
        lemma_derive_keys_sourced(store, s, front);
        let r = s.derive_keys(front);
        let k = keys.last();
        assert(k == keys[keys.len() - 1]);
        assert(r.found.contains_key(k));
        let t = r.derive_step(k);
        assert(file_sourced(store, k, r.found.map[k]));
        assert forall|x: KeyView| #[trigger] t.found.contains_key(x) implies file_sourced(
            store,
            x,
            t.found.map[x],
        ) by {
            assert(r.found.contains_key(x));
            if x == k && r.derives_aux(k) {
                let c = r.found.map[k].content->0;
                assert(content_in_store(store, k, c));
            }
        }
    }
}

/// A store that has only tiers on local disk returns nothing that was not
/// in one of them when the fetch began: the content of every complete key
/// is an entry of an indexed log or content of a large-file store, and its
/// auxiliary data is held by an auxiliary-data log or is the auxiliary data
/// of such content.
pub proof fn lemma_local_fetch_sourced(
    store: FileStoreView,
    keys: Seq<KeyView>,
    attrs: FileAttributes,
    k: KeyView,
)
    requires
        only_local(store),
        store.fetch_result(keys, attrs).complete.contains_key(k),
    ensures
        file_sourced(store, k, store.fetch_result(keys, attrs).complete[k]),
{
    lemma_probed_sourced(store, keys, attrs);
    lemma_derived_inv(store, keys, attrs);
    let p = store.probed(keys, attrs).0;
    lemma_derive_sourced(store, p);
    let d = p.derive_computable();
    assert(d.written().is_complete(k));
    assert(d.found.contains_key(k));
    assert(file_sourced(store, k, d.found.map[k]));
}

proof fn lemma_aux_tiers_sourced(store: FileStoreView, s: FetchModel)
    requires
        sourced(store, s),
    ensures
        sourced(store, store.probe_aux_tiers(s)),
{
    let aux = FileAttributes::spec_only_aux();
    let s1 = match store.aux_cache {
        Some(t) => s.fetch_aux_indexedlog(t),
        None => s,
    };
    if store.aux_cache is Some {
        lemma_probe_aux_sourced(store, s, store.aux_cache->0, s.pending_all(aux));
    }
    if store.aux_local is Some {
        lemma_probe_aux_sourced(store, s1, store.aux_local->0, s1.pending_all(aux));
    }
}

proof fn lemma_disk_sourced(store: FileStoreView, s: FetchModel)
    requires
        sourced(store, s),
    ensures
        sourced(store, store.probe_disk(s)),
{
    lemma_aux_tiers_sourced(store, s);
    let s1 = store.probe_aux_tiers(s);
    lemma_indexedlog_tiers_sourced(store, s1);
    let s2 = store.probe_indexedlog_tiers(s1);
    lemma_lfs_tiers_sourced(store, s2);
}

proof fn lemma_probed_sourced(store: FileStoreView, keys: Seq<KeyView>, attrs: FileAttributes)
    requires
        only_local(store),
    ensures
        sourced(store, store.probed(keys, attrs).0),
{
    reveal(FileStoreView::probed);
    let s0 = FetchModel::init(keys, attrs, store.extstored_policy, store.fallbacks);
    assert(sourced(store, s0));
    lemma_disk_sourced(store, s0);
    let s1 = store.probe_disk(s0);
    assert(store.probe_network(s1) == s1);
    assert(store.probe_lfs_remote(s1).0 == s1);
    assert(store.probe_legacy(s1) == s1);
}

proof fn lemma_indexedlog_tiers_sourced(store: FileStoreView, s: FetchModel)
    requires
        sourced(store, s),
    ensures
        sourced(store, store.probe_indexedlog_tiers(s)),
{
    let content = FileAttributes::spec_only_content();
    let s1 = match store.indexedlog_cache {
        Some(t) => s.fetch_indexedlog(t, LocalStoreType::Cache),
        None => s,
    };
    if store.indexedlog_cache is Some {
        lemma_probe_indexedlog_sourced(
            store,
            s,
            store.indexedlog_cache->0,
            s.pending_nonlfs(content),
            LocalStoreType::Cache,
        );
    }
    if store.indexedlog_local is Some {
        lemma_probe_indexedlog_sourced(
            store,
            s1,
            store.indexedlog_local->0,
            s1.pending_nonlfs(content),
            LocalStoreType::Local,
        );
    }
}

proof fn lemma_lfs_tiers_sourced(store: FileStoreView, s: FetchModel)
    requires
        sourced(store, s),
    ensures
        sourced(store, store.probe_lfs_tiers(s)),
{
    let content = FileAttributes::spec_only_content();
    let s1 = match store.lfs_cache {
        Some(t) => s.fetch_lfs(t, LocalStoreType::Cache),
        None => s,
    };
    if store.lfs_cache is Some {
        lemma_probe_lfs_sourced(
            store,
            s,
            store.lfs_cache->0,
            s.pending_storekey(content),
            LocalStoreType::Cache,
        );
    }
    if store.lfs_local is Some {
        lemma_probe_lfs_sourced(
            store,
            s1,
            store.lfs_local->0,
            s1.pending_storekey(content),
            LocalStoreType::Local,
        );
    }
}

proof fn lemma_derive_sourced(store: FileStoreView, s: FetchModel)
    requires
        sourced(store, s),
        s.inv(),
    ensures
        sourced(store, s.derive_computable()),
{
    if s.compute_aux_data {
        assert forall|i: int| 0 <= i < s.found.keys.len() implies s.found.contains_key(
            #[trigger] s.found.keys[i],
        ) by {
            assert(s.found.keys.contains(s.found.keys[i]));
        }
        lemma_derive_keys_sourced(store, s, s.found.keys);
    }
}

} // verus!
