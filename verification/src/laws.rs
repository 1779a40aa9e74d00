//! Laws of the fetch: what holds of every request, proved over the model
//! that the executable code is proved to follow.

use crate::after::{lemma_derive_keys_inv, lemma_derive_step_inv, CacheTiers};
use crate::attrs::FileAttributes;
use crate::codec::sha256_digest;
use crate::store::{lemma_derived_inv, FileStoreView};
use crate::file::LazyFileView;
use crate::keys::KeyView;
use crate::model::FetchModel;
use crate::stores::IndexedLogView;
use crate::types::LocalStoreType;
use vstd::prelude::*;

verus! {

// ---------------------------------------------------------------------
// Derived auxiliary data
// ---------------------------------------------------------------------
/// The auxiliary data of a payload is the SHA-256 of its file content,
/// whichever tier the payload came from; for large-file content that is the
/// hash of the blob, whatever its pointer says.
pub proof fn lemma_aux_data_is_content_hash(c: LazyFileView)
    ensures
        c.aux_data().content_sha256 == sha256_digest(c.file_content()),
        c matches LazyFileView::Lfs(blob, _) ==> c.aux_data().content_sha256 == sha256_digest(
            blob,
        ),
{
}

/// Looking at some found keys changes nothing for the others.
pub proof fn lemma_derive_keys_frame(s: FetchModel, keys: Seq<KeyView>, x: KeyView)
    requires
        !keys.contains(x),
    ensures
        s.derive_keys(keys).found.contains_key(x) == s.found.contains_key(x),
        s.derive_keys(keys).found.map[x] == s.found.map[x],
        s.derive_keys(keys).computed_aux_data.contains_key(x) == s.computed_aux_data.contains_key(
            x,
        ),
        s.derive_keys(keys).computed_aux_data.map[x] == s.computed_aux_data.map[x],
    decreases keys.len(),
{
    if keys.len() > 0 {
        let front = keys.drop_last();
        assert(keys[keys.len() - 1] != x);
        assert forall|i: int| 0 <= i < front.len() implies front[i] != x by {
            assert(front[i] == keys[i]);
        }
        lemma_derive_keys_frame(s, front, x);
    }
}

/// Where the derivation pass computed auxiliary data for a key, it computed
/// it from the content that was found for the key, and it recorded, for
/// the write-back, the origin of the key.
pub proof fn lemma_derive_keys_aux(s: FetchModel, keys: Seq<KeyView>, k: KeyView)
    requires
        s.inv(),
        keys.no_duplicates(),
        forall|i: int| 0 <= i < keys.len() ==> s.found.contains_key(#[trigger] keys[i]),
        s.derive_keys(keys).computed_aux_data.contains_key(k),
        !s.computed_aux_data.contains_key(k),
    ensures
        s.found.contains_key(k),
        s.found.map[k].content is Some,
        s.derive_keys(keys).found.map[k].content == s.found.map[k].content,
        s.derive_keys(keys).found.map[k].aux_data == Some(s.found.map[k].content->0.aux_data()),
        s.derive_keys(keys).computed_aux_data.map[k] == s.key_origin.map[k],
    decreases keys.len(),
{
    if keys.len() > 0 {
        let front = keys.drop_last();
        let last = keys.last();
        assert(last == keys[keys.len() - 1]);
        assert forall|i: int| 0 <= i < front.len() implies s.found.contains_key(
            #[trigger] front[i],
        ) by {
            assert(front[i] == keys[i]);
        }
        assert(front.no_duplicates());
        assert(!front.contains(last)) by {
            if front.contains(last) {
                let j = choose|j: int| 0 <= j < front.len() && front[j] == last;
                assert(keys[j] == keys[keys.len() - 1]);
            }
        }
        let r = s.derive_keys(front);
        lemma_derive_keys_inv(s, front);
        assert(r.found.keys.contains(last)) by {
            assert(s.found.contains_key(last));
        }
        lemma_derive_step_inv(r, last);
        if k == last {
            lemma_derive_keys_frame(s, front, k);
            assert(!r.computed_aux_data.contains_key(k));
            assert(r.derives_aux(k));
        } else {
            assert(r.computed_aux_data.contains_key(k));
            lemma_derive_keys_aux(s, front, k);
        }
    }
}

/// Where a fetch derives auxiliary data for a key, it derives it from the
/// content found for the key, so that it is the hash of that content, and
/// it records the origin of the key for the write-back.
pub proof fn lemma_derived_aux_data(s: FetchModel, k: KeyView)
    requires
        s.inv(),
        s.derive_computable().computed_aux_data.contains_key(k),
        !s.computed_aux_data.contains_key(k),
    ensures
        s.found.contains_key(k),
        s.found.map[k].content is Some,
        s.derive_computable().found.map[k].content == s.found.map[k].content,
        s.derive_computable().found.map[k].aux_data == Some(
            s.found.map[k].content->0.aux_data(),
        ),
        s.derive_computable().computed_aux_data.map[k] == s.key_origin.map[k],
{
    assert forall|i: int| 0 <= i < s.found.keys.len() implies s.found.contains_key(
        #[trigger] s.found.keys[i],
    ) by {
        assert(s.found.keys.contains(s.found.keys[i]));
    }
    lemma_derive_keys_aux(s, s.found.keys, k);
}

/// The entry a log holds for `k`, if the log is there and holds one.
pub open spec fn entry_in(log: Option<IndexedLogView>, k: KeyView) -> Option<
    crate::types::EntryView,
> {
    match log {
        Some(l) => l.entries.get(k),
        None => None,
    }
}

/// The log is there and accepts writes.
pub open spec fn accepts_writes(log: Option<IndexedLogView>) -> bool {
    log matches Some(l) && l.writable
}

/// Writing the auxiliary data of some keys leaves the entries of every
/// other key as they were, and touches none of the content caches.
pub proof fn lemma_write_aux_frame(s: FetchModel, t: CacheTiers, keys: Seq<KeyView>, x: KeyView)
    requires
        !keys.contains(x),
    ensures
        entry_in(s.write_aux(t, keys).aux_cache, x) == entry_in(t.aux_cache, x),
        entry_in(s.write_aux(t, keys).aux_local, x) == entry_in(t.aux_local, x),
        accepts_writes(s.write_aux(t, keys).aux_cache) == accepts_writes(t.aux_cache),
        accepts_writes(s.write_aux(t, keys).aux_local) == accepts_writes(t.aux_local),
        s.write_aux(t, keys).indexedlog_cache == t.indexedlog_cache,
        s.write_aux(t, keys).memcache == t.memcache,
    decreases keys.len(),
{
    if keys.len() > 0 {
        let front = keys.drop_last();
        assert(keys[keys.len() - 1] != x);
        assert forall|i: int| 0 <= i < front.len() implies front[i] != x by {
            assert(front[i] == keys[i]);
        }
        lemma_write_aux_frame(s, t, front, x);
    }
}

/// Writing auxiliary data neither makes a log appear nor changes whether
/// it accepts writes.
pub proof fn lemma_write_aux_writable(s: FetchModel, t: CacheTiers, keys: Seq<KeyView>)
    ensures
        accepts_writes(s.write_aux(t, keys).aux_cache) == accepts_writes(t.aux_cache),
        accepts_writes(s.write_aux(t, keys).aux_local) == accepts_writes(t.aux_local),
    decreases keys.len(),
{
    if keys.len() > 0 {
        lemma_write_aux_writable(s, t, keys.drop_last());
    }
}

/// The write-back puts computed auxiliary data into the auxiliary-data
/// tier of the kind recorded for its key, if that tier is there and accepts
/// writes, and leaves the key's entry in the other tier as it was.
pub proof fn lemma_write_aux(s: FetchModel, t: CacheTiers, keys: Seq<KeyView>, k: KeyView)
    requires
        keys.no_duplicates(),
        keys.contains(k),
    ensures
        s.computed_aux_data.map[k] == LocalStoreType::Cache ==> {
            &&& accepts_writes(t.aux_cache) ==> entry_in(s.write_aux(t, keys).aux_cache, k)
                == Some(s.aux_entry(k))
            &&& entry_in(s.write_aux(t, keys).aux_local, k) == entry_in(t.aux_local, k)
        },
        s.computed_aux_data.map[k] == LocalStoreType::Local ==> {
            &&& accepts_writes(t.aux_local) ==> entry_in(s.write_aux(t, keys).aux_local, k)
                == Some(s.aux_entry(k))
            &&& entry_in(s.write_aux(t, keys).aux_cache, k) == entry_in(t.aux_cache, k)
        },
    decreases keys.len(),
{
    let front = keys.drop_last();
    let last = keys.last();
    assert(last == keys[keys.len() - 1]);
    assert(front.no_duplicates());
    let t1 = s.write_aux(t, front);
    lemma_write_aux_writable(s, t, front);
    if k == last {
        assert(!front.contains(k)) by {
            if front.contains(k) {
                let j = choose|j: int| 0 <= j < front.len() && front[j] == k;
                assert(keys[j] == keys[keys.len() - 1]);
            }
        }
        lemma_write_aux_frame(s, t, front, k);
    } else {
        assert(front.contains(k)) by {
            let j = choose|j: int| 0 <= j < keys.len() && keys[j] == k;
            assert(front[j] == k);
        }
        lemma_write_aux(s, t, front, k);
    }
}

/// Writing content back touches no auxiliary-data tier.
pub proof fn lemma_write_content_frame(s: FetchModel, t: CacheTiers, keys: Seq<KeyView>)
    ensures
        s.write_edenapi(t, keys).aux_cache == t.aux_cache,
        s.write_edenapi(t, keys).aux_local == t.aux_local,
        s.write_memcache(t, keys).aux_cache == t.aux_cache,
        s.write_memcache(t, keys).aux_local == t.aux_local,
    decreases keys.len(),
{
    if keys.len() > 0 {
        lemma_write_content_frame(s, t, keys.drop_last());
    }
}

/// Auxiliary data that a fetch derives for a key is derived from the
/// content that the probes found for the key, so that it is the hash of
/// that content; and the fetch writes it to the auxiliary-data tier of the
/// kind of the key's origin, if that tier is configured and accepts writes,
/// and to no other.
pub proof fn lemma_fetch_derived_aux(
    store: FileStoreView,
    keys: Seq<KeyView>,
    attrs: FileAttributes,
    k: KeyView,
)
    requires
        store.derived(keys, attrs).computed_aux_data.contains_key(k),
    ensures
        store.probed(keys, attrs).0.found.map[k].content is Some,
        store.derived(keys, attrs).found.map[k].aux_data == Some(
            store.probed(keys, attrs).0.found.map[k].content->0.aux_data(),
        ),
        store.derived(keys, attrs).computed_aux_data.map[k] == store.probed(
            keys,
            attrs,
        ).0.key_origin.map[k],
        store.derived(keys, attrs).computed_aux_data.map[k] == LocalStoreType::Cache ==> {
            &&& accepts_writes(store.aux_cache) ==> entry_in(
                store.after_fetch(keys, attrs).aux_cache,
                k,
            ) == Some(store.derived(keys, attrs).aux_entry(k))
            &&& entry_in(store.after_fetch(keys, attrs).aux_local, k) == entry_in(
                store.aux_local,
                k,
            )
        },
        store.derived(keys, attrs).computed_aux_data.map[k] == LocalStoreType::Local ==> {
            &&& accepts_writes(store.aux_local) ==> entry_in(
                store.after_fetch(keys, attrs).aux_local,
                k,
            ) == Some(store.derived(keys, attrs).aux_entry(k))
            &&& entry_in(store.after_fetch(keys, attrs).aux_cache, k) == entry_in(
                store.aux_cache,
                k,
            )
        },
{
    lemma_derived_inv(store, keys, attrs);
    let before = store.probed(keys, attrs).0;
    let s = store.derived(keys, attrs);
    lemma_derived_aux_data(before, k);
    let t0 = store.cache_tiers();
    let t1 = s.write_edenapi(t0, s.found_in_edenapi);
    let t2 = s.write_memcache(t1, s.found_in_memcache);
    lemma_write_content_frame(s, t0, s.found_in_edenapi);
    lemma_write_content_frame(s, t1, s.found_in_memcache);
    assert(s.computed_aux_data.keys.contains(k));
    lemma_write_aux(s, t2, s.computed_aux_data.keys, k);
}

} // verus!
