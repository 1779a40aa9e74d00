//! Asking one tier: which keys it is asked for, and what becomes of the
//! state as its answers come in.
//!
//! For each kind of tier the model has a function that folds the tier's
//! answers into the state, key by key in the order asked; the executable
//! method is proved to compute exactly that, and the state machine's
//! invariants are proved to survive it.

use crate::attrs::FileAttributes;
use crate::error::StoreError;
use crate::keys::{keys_view, KeyView};
use crate::model::{
    bump, lemma_found_aux_indexedlog_inv, lemma_found_contentstore_inv, lemma_found_edenapi_inv,
    lemma_found_indexedlog_inv, lemma_found_lfs_inv, lemma_found_memcache_inv,
    lemma_keyed_error_inv, lemma_other_error_inv, FallbackCounts, FetchModel,
};
use crate::state::FetchState;
use crate::stores::{
    lemma_lookup_all_keys, lookup_all, ContentStore, EdenApiFileStore, IndexedLogHgIdDataStore,
    IndexedLogView, LegacyView, LfsStore, LfsStoreView, MemcacheStore, RemoteView,
};
use crate::types::{storekeys_view, Entry, EntryView, LocalStoreType, StoreKeyView};
use vstd::prelude::*;

verus! {

/// What passes a filter passed the predicate and was there before.
pub proof fn lemma_filter_member<A>(s: Seq<A>, pred: spec_fn(A) -> bool)
    ensures
        forall|x: A| #[trigger] s.filter(pred).contains(x) ==> s.contains(x) && pred(x),
    decreases s.len(),
{
    reveal(Seq::filter);
    if s.len() > 0 {
        let front = s.drop_last();
        lemma_filter_member(front, pred);
        assert forall|x: A| #[trigger] s.filter(pred).contains(x) implies s.contains(x) && pred(
            x,
        ) by {
            let f = s.filter(pred);
            let i = choose|i: int| 0 <= i < f.len() && f[i] == x;
            if i < front.filter(pred).len() {
                assert(front.filter(pred).contains(x));
                let j = choose|j: int| 0 <= j < front.len() && front[j] == x;
                assert(s[j] == x);
            } else {
                assert(x == s.last());
                assert(s[s.len() - 1] == x);
            }
        }
    }
}

impl FetchModel {
    // -----------------------------------------------------------------
    // Indexed log
    // -----------------------------------------------------------------
    /// The state after the indexed log `store` was asked for `keys`, one
    /// after the other. Where the log fails to read a key, that is recorded
    /// as an error of the key, and the next key is asked.
    pub open spec fn probe_indexedlog(
        self,
        store: IndexedLogView,
        keys: Seq<KeyView>,
        typ: LocalStoreType,
    ) -> FetchModel
        decreases keys.len(),
    {
        if keys.len() == 0 {
            self
        } else {
            let s = self.probe_indexedlog(store, keys.drop_last(), typ);
            let k = keys.last();
            match store.read(k) {
                Ok(Some(e)) => s.found_indexedlog(k, e, typ),
                Ok(None) => s,
                Err(e) => s.keyed_error(k, e),
            }
        }
    }

    /// The state after the indexed log `store`, a tier of kind `typ`, was
    /// asked for content of every key that it may be asked for.
    pub open spec fn fetch_indexedlog(self, store: IndexedLogView, typ: LocalStoreType) -> FetchModel {
        self.probe_indexedlog(store, self.pending_nonlfs(FileAttributes::spec_only_content()), typ)
    }

    // -----------------------------------------------------------------
    // Auxiliary-data log
    // -----------------------------------------------------------------
    /// The state after the auxiliary-data log `store` was asked for `keys`,
    /// one after the other, and whether an entry failed to parse. After
    /// such a failure no further key is asked. Where the log fails to read
    /// a key, that is recorded as an error of the key, and the next key is
    /// asked.
    pub open spec fn probe_aux(self, store: IndexedLogView, keys: Seq<KeyView>) -> (FetchModel, bool)
        decreases keys.len(),
    {
        if keys.len() == 0 {
            (self, false)
        } else {
            let (s, failed) = self.probe_aux(store, keys.drop_last());
            let k = keys.last();
            if failed {
                (s, true)
            } else {
                match store.read(k) {
                    Ok(Some(e)) => match s.found_aux_indexedlog(k, e) {
                        Some(t) => (t, false),
                        None => (s, true),
                    },
                    Ok(None) => (s, false),
                    Err(e) => (s.keyed_error(k, e), false),
                }
            }
        }
    }

    /// The state after the auxiliary-data log `store` was asked for every
    /// key whose auxiliary data is missing. An entry that does not parse
    /// ends the probe and is recorded as an error of the tier.
    pub open spec fn fetch_aux_indexedlog(self, store: IndexedLogView) -> FetchModel {
        let (s, failed) = self.probe_aux(
            store,
            self.pending_all(FileAttributes::spec_only_aux()),
        );
        if failed {
            s.other_error(StoreError::MalformedAuxData)
        } else {
            s
        }
    }

    // -----------------------------------------------------------------
    // Large-file store
    // -----------------------------------------------------------------
    /// The state after the large-file store `store` was asked for `keys`,
    /// one after the other. Where the store fails to read a key, that is
    /// recorded as an error of the key, and the next key is asked.
    pub open spec fn probe_lfs(
        self,
        store: LfsStoreView,
        keys: Seq<StoreKeyView>,
        typ: LocalStoreType,
    ) -> FetchModel
        decreases keys.len(),
    {
        if keys.len() == 0 {
            self
        } else {
            let s = self.probe_lfs(store, keys.drop_last(), typ);
            let sk = keys.last();
            match (sk.maybe_key(), store.read(sk)) {
                (Some(k), Ok(Some(e))) => s.found_lfs(k, e, typ),
                (Some(k), Err(e)) => s.keyed_error(k, e),
                _ => s,
            }
        }
    }

    /// The state after the large-file store `store`, a tier of kind `typ`,
    /// was asked for content of every key that still lacks it: by content
    /// hash where a pointer is known, by key otherwise.
    pub open spec fn fetch_lfs(self, store: LfsStoreView, typ: LocalStoreType) -> FetchModel {
        self.probe_lfs(store, self.pending_storekey(FileAttributes::spec_only_content()), typ)
    }

    // -----------------------------------------------------------------
    // Distributed memory cache and remote API
    // -----------------------------------------------------------------
    /// The state after the memory cache delivered `entries`.
    pub open spec fn probe_memcache(self, entries: Seq<EntryView>) -> FetchModel
        decreases entries.len(),
    {
        if entries.len() == 0 {
            self
        } else {
            self.probe_memcache(entries.drop_last()).found_memcache(entries.last())
        }
    }

    /// The state after the memory cache was asked, in one batch, for content
    /// of every key that may be asked by key. If the cache is out of reach
    /// that is recorded as an error of the tier.
    pub open spec fn fetch_memcache(self, store: RemoteView) -> FetchModel {
        let pending = self.pending_nonlfs(FileAttributes::spec_only_content());
        if pending.len() == 0 {
            self
        } else {
            match store.fetch(pending) {
                Ok(entries) => self.probe_memcache(entries),
                Err(e) => self.other_error(e),
            }
        }
    }

    /// The state after the remote API delivered `entries`.
    pub open spec fn probe_edenapi(self, entries: Seq<EntryView>) -> FetchModel
        decreases entries.len(),
    {
        if entries.len() == 0 {
            self
        } else {
            self.probe_edenapi(entries.drop_last()).found_edenapi(entries.last())
        }
    }

    /// The state after the remote API was asked, in one batch, for content
    /// of every key that may be asked by key. If the server is out of reach
    /// that is recorded as an error of the tier.
    pub open spec fn fetch_edenapi(self, store: RemoteView) -> FetchModel {
        let pending = self.pending_nonlfs(FileAttributes::spec_only_content());
        if pending.len() == 0 {
            self
        } else {
            match store.fetch(pending) {
                Ok(entries) => self.probe_edenapi(entries),
                Err(e) => self.other_error(e),
            }
        }
    }

    // -----------------------------------------------------------------
    // Legacy store
    // -----------------------------------------------------------------
    /// One more question to the legacy store was counted.
    pub open spec fn count_fetch(self) -> FetchModel {
        FetchModel {
            fallbacks: FallbackCounts { fetch: bump(self.fallbacks.fetch), ..self.fallbacks },
            ..self
        }
    }

    /// One more miss of the legacy store was counted.
    pub open spec fn count_miss(self) -> FetchModel {
        FetchModel {
            fallbacks: FallbackCounts {
                fetch_miss: bump(self.fallbacks.fetch_miss),
                ..self.fallbacks
            },
            ..self
        }
    }

    /// The state after the legacy store, within reach, was asked for
    /// `keys`, one after the other. Each question is counted, and so is
    /// each miss. Where the store fails to read a key, that is a miss and
    /// an error of the key, and the next key is asked.
    pub open spec fn probe_contentstore(self, store: LegacyView, keys: Seq<StoreKeyView>) -> FetchModel
        decreases keys.len(),
    {
        if keys.len() == 0 {
            self
        } else {
            let s = self.probe_contentstore(store, keys.drop_last());
            let sk = keys.last();
            match sk.maybe_key() {
                Some(k) => match store.read(sk) {
                    Ok(Some(e)) => s.count_fetch().found_contentstore(k, e.content, e.metadata),
                    Ok(None) => s.count_fetch().count_miss(),
                    Err(e) => s.count_fetch().count_miss().keyed_error(k, e),
                },
                None => s,
            }
        }
    }

    /// The state after the legacy store was asked for content of every key
    /// that still lacks it. If the store is out of reach that is recorded as
    /// an error of the tier.
    pub open spec fn fetch_contentstore(self, store: LegacyView) -> FetchModel {
        let pending = self.pending_storekey(FileAttributes::spec_only_content());
        if pending.len() == 0 {
            self
        } else if !store.available {
            self.other_error(StoreError::Unavailable)
        } else {
            self.probe_contentstore(store, pending)
        }
    }

    /// The error that asking the memory cache or the remote API ends with:
    /// the tier is asked only if a key is pending for it, and fails as a
    /// whole if it is out of reach.
    pub open spec fn remote_failure(self, store: RemoteView) -> Option<StoreError> {
        let pending = self.pending_nonlfs(FileAttributes::spec_only_content());
        if pending.len() == 0 {
            None
        } else {
            match store.fetch(pending) {
                Ok(_) => None,
                Err(e) => Some(e),
            }
        }
    }

    /// The error that asking the legacy store ends with: the store is
    /// asked only if a key is pending for it, and fails as a whole if it is
    /// out of reach.
    pub open spec fn contentstore_failure(self, store: LegacyView) -> Option<StoreError> {
        let pending = self.pending_storekey(FileAttributes::spec_only_content());
        if pending.len() > 0 && !store.available {
            Some(StoreError::Unavailable)
        } else {
            None
        }
    }
}

// ---------------------------------------------------------------------
// The invariants survive every probe.
// ---------------------------------------------------------------------
/// Being states of the same probe sequence is transitive.
pub proof fn lemma_same_probe_trans(a: FetchModel, b: FetchModel, c: FetchModel)
    requires
        a.same_probe(b),
        b.same_probe(c),
    ensures
        a.same_probe(c),
{
    assert forall|x: KeyView| a.requested(x) <==> c.requested(x) by {
        assert(a.requested(x) <==> b.requested(x));
        assert(b.requested(x) <==> c.requested(x));
    }
}

/// Being about the same request is transitive.
pub proof fn lemma_same_request_trans(a: FetchModel, b: FetchModel, c: FetchModel)
    requires
        a.same_request(b),
        b.same_request(c),
    ensures
        a.same_request(c),
{
    assert forall|x: KeyView| a.requested(x) <==> c.requested(x) by {
        assert(a.requested(x) <==> b.requested(x));
        assert(b.requested(x) <==> c.requested(x));
    }
}

/// Asking an indexed log for requested keys keeps the invariants and the
/// request.
pub proof fn lemma_probe_indexedlog_inv(
    s: FetchModel,
    store: IndexedLogView,
    keys: Seq<KeyView>,
    typ: LocalStoreType,
)
    requires
        s.inv(),
        forall|i: int| 0 <= i < keys.len() ==> s.requested(#[trigger] keys[i]),
    ensures
        s.probe_indexedlog(store, keys, typ).inv(),
        s.probe_indexedlog(store, keys, typ).same_probe(s),
    decreases keys.len(),
{
    if keys.len() > 0 {
        let front = keys.drop_last();
        assert forall|i: int| 0 <= i < front.len() implies s.requested(#[trigger] front[i]) by {
            assert(front[i] == keys[i]);
        }
        lemma_probe_indexedlog_inv(s, store, front, typ);
        let r = s.probe_indexedlog(store, front, typ);
        let k = keys.last();
        assert(s.requested(keys[keys.len() - 1]));
        assert(r.requested(k) <==> s.requested(k));
        match store.read(k) {
            Ok(Some(e)) => {
                lemma_found_indexedlog_inv(r, k, e, typ);
                lemma_same_probe_trans(r.found_indexedlog(k, e, typ), r, s);
            },
            Ok(None) => {},
            Err(e) => {
                lemma_keyed_error_inv(r, k, e);
                lemma_same_probe_trans(r.keyed_error(k, e), r, s);
            },
        }
    }
}

/// Asking an indexed log keeps the invariants and the request.
pub proof fn lemma_fetch_indexedlog_inv(s: FetchModel, store: IndexedLogView, typ: LocalStoreType)
    requires
        s.inv(),
    ensures
        s.fetch_indexedlog(store, typ).inv(),
        s.fetch_indexedlog(store, typ).same_probe(s),
{
    let pred = |k: KeyView|
        !s.lfs_pointers.contains_key(k) && s.actionable(k, FileAttributes::spec_only_content());
    let keys = s.pending_nonlfs(FileAttributes::spec_only_content());
    lemma_filter_member(s.pending, pred);
    assert forall|i: int| 0 <= i < keys.len() implies s.requested(#[trigger] keys[i]) by {
        assert(keys.contains(keys[i]));
    }
    lemma_probe_indexedlog_inv(s, store, keys, typ);
}

/// Asking an auxiliary-data log for requested keys keeps the invariants and
/// the request.
pub proof fn lemma_probe_aux_inv(s: FetchModel, store: IndexedLogView, keys: Seq<KeyView>)
    requires
        s.inv(),
        forall|i: int| 0 <= i < keys.len() ==> s.requested(#[trigger] keys[i]),
    ensures
        s.probe_aux(store, keys).0.inv(),
        s.probe_aux(store, keys).0.same_probe(s),
    decreases keys.len(),
{
    if keys.len() > 0 {
        let front = keys.drop_last();
        assert forall|i: int| 0 <= i < front.len() implies s.requested(#[trigger] front[i]) by {
            assert(front[i] == keys[i]);
        }
        lemma_probe_aux_inv(s, store, front);
        let (r, failed) = s.probe_aux(store, front);
        let k = keys.last();
        assert(s.requested(keys[keys.len() - 1]));
        assert(r.requested(k) <==> s.requested(k));
        if !failed {
            match store.read(k) {
                Ok(Some(e)) => {
                    if r.found_aux_indexedlog(k, e) is Some {
                        lemma_found_aux_indexedlog_inv(r, k, e);
                        lemma_same_probe_trans(r.found_aux_indexedlog(k, e)->0, r, s);
                    }
                },
                Ok(None) => {},
                Err(e) => {
                    lemma_keyed_error_inv(r, k, e);
                    lemma_same_probe_trans(r.keyed_error(k, e), r, s);
                },
            }
        }
    }
}

/// Asking an auxiliary-data log keeps the invariants and the request.
pub proof fn lemma_fetch_aux_indexedlog_inv(s: FetchModel, store: IndexedLogView)
    requires
        s.inv(),
    ensures
        s.fetch_aux_indexedlog(store).inv(),
        s.fetch_aux_indexedlog(store).same_probe(s),
{
    let pred = |k: KeyView| s.actionable(k, FileAttributes::spec_only_aux());
    let keys = s.pending_all(FileAttributes::spec_only_aux());
    lemma_filter_member(s.pending, pred);
    assert forall|i: int| 0 <= i < keys.len() implies s.requested(#[trigger] keys[i]) by {
        assert(keys.contains(keys[i]));
    }
    lemma_probe_aux_inv(s, store, keys);
    let (r, failed) = s.probe_aux(store, keys);
    if failed {
        lemma_other_error_inv(r, StoreError::MalformedAuxData);
        lemma_same_probe_trans(r.other_error(StoreError::MalformedAuxData), r, s);
    }
}

/// Asking a large-file store for requested keys keeps the invariants and the
/// request.
pub proof fn lemma_probe_lfs_inv(
    s: FetchModel,
    store: LfsStoreView,
    keys: Seq<StoreKeyView>,
    typ: LocalStoreType,
)
    requires
        s.inv(),
        forall|i: int|
            0 <= i < keys.len() ==> (#[trigger] keys[i]).maybe_key() is Some && s.requested(
                keys[i].maybe_key()->0,
            ),
    ensures
        s.probe_lfs(store, keys, typ).inv(),
        s.probe_lfs(store, keys, typ).same_probe(s),
    decreases keys.len(),
{
    if keys.len() > 0 {
        let front = keys.drop_last();
        assert forall|i: int| 0 <= i < front.len() implies (#[trigger] front[i]).maybe_key() is Some
            && s.requested(front[i].maybe_key()->0) by {
            assert(front[i] == keys[i]);
        }
        lemma_probe_lfs_inv(s, store, front, typ);
        let r = s.probe_lfs(store, front, typ);
        let sk = keys.last();
        assert(sk == keys[keys.len() - 1]);
        let k = sk.maybe_key()->0;
        assert(r.requested(k) <==> s.requested(k));
        match store.read(sk) {
            Ok(Some(e)) => {
                lemma_found_lfs_inv(r, k, e, typ);
                lemma_same_probe_trans(r.found_lfs(k, e, typ), r, s);
            },
            Ok(None) => {},
            Err(e) => {
                lemma_keyed_error_inv(r, k, e);
                lemma_same_probe_trans(r.keyed_error(k, e), r, s);
            },
        }
    }
}

/// Every store key that `pending_storekey` names holds a requested key.
pub proof fn lemma_pending_storekey(s: FetchModel, fetchable: FileAttributes)
    ensures
        forall|i: int|
            0 <= i < s.pending_storekey(fetchable).len() ==> (#[trigger] s.pending_storekey(
                fetchable,
            )[i]).maybe_key() is Some && s.requested(
                s.pending_storekey(fetchable)[i].maybe_key()->0,
            ),
{
    let pred = |k: KeyView| s.actionable(k, fetchable);
    let keys = s.pending_all(fetchable);
    lemma_filter_member(s.pending, pred);
    assert forall|i: int| 0 <= i < s.pending_storekey(fetchable).len() implies (
    #[trigger] s.pending_storekey(fetchable)[i]).maybe_key() is Some && s.requested(
        s.pending_storekey(fetchable)[i].maybe_key()->0,
    ) by {
        assert(keys.contains(keys[i]));
        assert(s.pending_storekey(fetchable)[i] == s.storekey(keys[i]));
    }
}

/// Asking a large-file store keeps the invariants and the request.
pub proof fn lemma_fetch_lfs_inv(s: FetchModel, store: LfsStoreView, typ: LocalStoreType)
    requires
        s.inv(),
    ensures
        s.fetch_lfs(store, typ).inv(),
        s.fetch_lfs(store, typ).same_probe(s),
{
    lemma_pending_storekey(s, FileAttributes::spec_only_content());
    lemma_probe_lfs_inv(
        s,
        store,
        s.pending_storekey(FileAttributes::spec_only_content()),
        typ,
    );
}

/// What the memory cache delivered, for requested keys that the remote API was
/// not credited with, keeps the invariants and the request.
pub proof fn lemma_probe_memcache_inv(s: FetchModel, entries: Seq<EntryView>)
    requires
        s.inv(),
        forall|i: int|
            0 <= i < entries.len() ==> s.requested((#[trigger] entries[i]).key)
                && !s.found_in_edenapi.contains(entries[i].key),
    ensures
        s.probe_memcache(entries).inv(),
        s.probe_memcache(entries).same_probe(s),
        s.probe_memcache(entries).found_in_edenapi == s.found_in_edenapi,
    decreases entries.len(),
{
    if entries.len() > 0 {
        let front = entries.drop_last();
        assert forall|i: int| 0 <= i < front.len() implies s.requested((#[trigger] front[i]).key)
            && !s.found_in_edenapi.contains(front[i].key) by {
            assert(front[i] == entries[i]);
        }
        lemma_probe_memcache_inv(s, front);
        let r = s.probe_memcache(front);
        let e = entries.last();
        assert(e == entries[entries.len() - 1]);
        assert(r.requested(e.key) <==> s.requested(e.key));
        lemma_found_memcache_inv(r, e);
        lemma_same_probe_trans(r.found_memcache(e), r, s);
    }
}

/// What the remote API delivered, for requested keys that the memory cache was
/// not credited with, keeps the invariants and the request.
pub proof fn lemma_probe_edenapi_inv(s: FetchModel, entries: Seq<EntryView>)
    requires
        s.inv(),
        forall|i: int|
            0 <= i < entries.len() ==> s.requested((#[trigger] entries[i]).key)
                && !s.found_in_memcache.contains(entries[i].key),
    ensures
        s.probe_edenapi(entries).inv(),
        s.probe_edenapi(entries).same_probe(s),
        s.probe_edenapi(entries).found_in_memcache == s.found_in_memcache,
    decreases entries.len(),
{
    if entries.len() > 0 {
        let front = entries.drop_last();
        assert forall|i: int| 0 <= i < front.len() implies s.requested((#[trigger] front[i]).key)
            && !s.found_in_memcache.contains(front[i].key) by {
            assert(front[i] == entries[i]);
        }
        lemma_probe_edenapi_inv(s, front);
        let r = s.probe_edenapi(front);
        let e = entries.last();
        assert(e == entries[entries.len() - 1]);
        assert(r.requested(e.key) <==> s.requested(e.key));
        lemma_found_edenapi_inv(r, e);
        lemma_same_probe_trans(r.found_edenapi(e), r, s);
    }
}

/// What a remote tier answers to the keys it may be asked by key are
/// entries for requested keys that no remote tier was credited with.
proof fn lemma_remote_answers(s: FetchModel, store: RemoteView)
    requires
        s.inv(),
        store.available,
    ensures
        forall|i: int|
            0 <= i < lookup_all(
                store.entries.map,
                s.pending_nonlfs(FileAttributes::spec_only_content()),
            ).len() ==> {
                let e = #[trigger] lookup_all(
                    store.entries.map,
                    s.pending_nonlfs(FileAttributes::spec_only_content()),
                )[i];
                s.requested(e.key) && !s.found_in_edenapi.contains(e.key)
                    && !s.found_in_memcache.contains(e.key)
            },
{
    let pred = |k: KeyView|
        !s.lfs_pointers.contains_key(k) && s.actionable(k, FileAttributes::spec_only_content());
    let keys = s.pending_nonlfs(FileAttributes::spec_only_content());
    lemma_filter_member(s.pending, pred);
    lemma_lookup_all_keys(store.entries.map, keys);
    let entries = lookup_all(store.entries.map, keys);
    assert forall|i: int| 0 <= i < entries.len() implies {
        let e = #[trigger] entries[i];
        s.requested(e.key) && !s.found_in_edenapi.contains(e.key) && !s.found_in_memcache.contains(
            e.key,
        )
    } by {
        let k = entries[i].key;
        assert(keys.contains(k));
        assert(s.pending.contains(k) && pred(k));
        assert(s.queryable(k));
        if s.found_in_edenapi.contains(k) {
            assert(s.found.contains_key(k) && s.found.map[k].content is Some);
        }
        if s.found_in_memcache.contains(k) {
            assert(s.found.contains_key(k) && s.found.map[k].content is Some);
        }
    }
}

/// Asking the memory cache keeps the invariants and the request.
pub proof fn lemma_fetch_memcache_inv(s: FetchModel, store: RemoteView)
    requires
        s.inv(),
    ensures
        s.fetch_memcache(store).inv(),
        s.fetch_memcache(store).same_probe(s),
{
    let pending = s.pending_nonlfs(FileAttributes::spec_only_content());
    if pending.len() > 0 {
        if store.available {
            lemma_remote_answers(s, store);
            lemma_probe_memcache_inv(s, lookup_all(store.entries.map, pending));
        } else {
            lemma_other_error_inv(s, StoreError::Unavailable);
        }
    }
}

/// Asking the remote API keeps the invariants and the request.
pub proof fn lemma_fetch_edenapi_inv(s: FetchModel, store: RemoteView)
    requires
        s.inv(),
    ensures
        s.fetch_edenapi(store).inv(),
        s.fetch_edenapi(store).same_probe(s),
{
    let pending = s.pending_nonlfs(FileAttributes::spec_only_content());
    if pending.len() > 0 {
        if store.available {
            lemma_remote_answers(s, store);
            lemma_probe_edenapi_inv(s, lookup_all(store.entries.map, pending));
        } else {
            lemma_other_error_inv(s, StoreError::Unavailable);
        }
    }
}

/// Asking the legacy store for requested keys keeps the invariants and the
/// request.
pub proof fn lemma_probe_contentstore_inv(
    s: FetchModel,
    store: LegacyView,
    keys: Seq<StoreKeyView>,
)
    requires
        s.inv(),
        forall|i: int|
            0 <= i < keys.len() ==> (#[trigger] keys[i]).maybe_key() is Some && s.requested(
                keys[i].maybe_key()->0,
            ),
    ensures
        s.probe_contentstore(store, keys).inv(),
        s.probe_contentstore(store, keys).same_probe(s),
    decreases keys.len(),
{
    if keys.len() > 0 {
        let front = keys.drop_last();
        assert forall|i: int| 0 <= i < front.len() implies (#[trigger] front[i]).maybe_key() is Some
            && s.requested(front[i].maybe_key()->0) by {
            assert(front[i] == keys[i]);
        }
        lemma_probe_contentstore_inv(s, store, front);
        let r = s.probe_contentstore(store, front);
        let sk = keys.last();
        assert(sk == keys[keys.len() - 1]);
        let k = sk.maybe_key()->0;
        assert(r.requested(k) <==> s.requested(k));
        let c = r.count_fetch();
        assert(c.inv());
        assert(c.same_probe(r));
        match store.read(sk) {
            Ok(Some(e)) => {
                lemma_found_contentstore_inv(c, k, e.content, e.metadata);
                lemma_same_probe_trans(c.found_contentstore(k, e.content, e.metadata), c, r);
                lemma_same_probe_trans(c.found_contentstore(k, e.content, e.metadata), r, s);
            },
            Ok(None) => {
                assert(c.count_miss().inv());
                assert(c.count_miss().same_probe(r));
                lemma_same_probe_trans(c.count_miss(), r, s);
            },
            Err(e) => {
                let m = c.count_miss();
                assert(m.inv());
                assert(m.same_probe(r));
                assert(m.requested(k) <==> r.requested(k));
                lemma_keyed_error_inv(m, k, e);
                lemma_same_probe_trans(m.keyed_error(k, e), m, r);
                lemma_same_probe_trans(m.keyed_error(k, e), r, s);
            },
        }
    }
}

/// Asking the legacy store keeps the invariants and the request.
pub proof fn lemma_fetch_contentstore_inv(s: FetchModel, store: LegacyView)
    requires
        s.inv(),
    ensures
        s.fetch_contentstore(store).inv(),
        s.fetch_contentstore(store).same_probe(s),
{
    let pending = s.pending_storekey(FileAttributes::spec_only_content());
    if pending.len() > 0 {
        if store.available {
            lemma_pending_storekey(s, FileAttributes::spec_only_content());
            lemma_probe_contentstore_inv(s, store, pending);
        } else {
            lemma_other_error_inv(s, StoreError::Unavailable);
        }
    }
}

// ---------------------------------------------------------------------
// The executable probes
// ---------------------------------------------------------------------
impl FetchState {
    /// Asks the indexed log `store`, a tier of kind `typ`, for content of
    /// every pending key that has no pointer yet.
    pub fn fetch_indexedlog(&mut self, store: &IndexedLogHgIdDataStore, typ: LocalStoreType)
        ensures
            final(self)@ == old(self)@.fetch_indexedlog(store@, typ),
            old(self)@.inv() ==> final(self)@.inv() && final(self)@.same_probe(old(self)@),
    {
        proof {
            if self@.inv() {
                lemma_fetch_indexedlog_inv(self@, store@, typ);
            }
        }
        let pending = self.pending_nonlfs(FileAttributes::only_content());
        let ghost keys = keys_view(pending@);
        let ghost start = self@;
        let mut i: usize = 0;
        while i < pending.len()
            invariant
                i <= pending@.len(),
                keys == keys_view(pending@),
                self@ == start.probe_indexedlog(store@, keys.subrange(0, i as int), typ),
            decreases pending@.len() - i,
        {
            proof {
                assert(keys.subrange(0, i + 1).drop_last() =~= keys.subrange(0, i as int));
                assert(keys.subrange(0, i + 1).last() == pending@[i as int]@);
            }
            let key = pending[i].clone();
            match store.get_raw_entry(&key) {
                Ok(Some(entry)) => self.found_indexedlog(key, entry, typ),
                Ok(None) => {},
                Err(err) => self.keyed_error(key, err),
            }
            i += 1;
        }
        proof {
            assert(keys.subrange(0, pending@.len() as int) =~= keys);
        }
    }

    /// Asks the auxiliary-data log `store` for every pending key whose
    /// auxiliary data is missing. Stops at the first entry that does not
    /// parse and reports it.
    pub fn fetch_aux_indexedlog_inner(&mut self, store: &IndexedLogHgIdDataStore) -> (r: Result<
        (),
        StoreError,
    >)
        ensures
            final(self)@ == old(self)@.probe_aux(
                store@,
                old(self)@.pending_all(FileAttributes::spec_only_aux()),
            ).0,
            r is Err == old(self)@.probe_aux(
                store@,
                old(self)@.pending_all(FileAttributes::spec_only_aux()),
            ).1,
            r matches Err(e) ==> e == StoreError::MalformedAuxData,
    {
        let pending = self.pending_all(FileAttributes::only_aux());
        let ghost keys = keys_view(pending@);
        let ghost start = self@;
        let mut i: usize = 0;
        while i < pending.len()
            invariant
                i <= pending@.len(),
                keys == keys_view(pending@),
                start == old(self)@,
                keys == start.pending_all(FileAttributes::spec_only_aux()),
                start.probe_aux(store@, keys.subrange(0, i as int)) == (self@, false),
            decreases pending@.len() - i,
        {
            proof {
                assert(keys.subrange(0, i + 1).drop_last() =~= keys.subrange(0, i as int));
                assert(keys.subrange(0, i + 1).last() == pending@[i as int]@);
            }
            let key = pending[i].clone();
            match store.get_raw_entry(&key) {
                Err(err) => self.keyed_error(key, err),
                Ok(None) => {},
                Ok(Some(aux)) => {
                    match self.found_aux_indexedlog(key, aux) {
                        Ok(()) => {},
                        Err(e) => {
                            proof {
                                let k = pending@[i as int]@;
                                assert(store@.read(k) is Ok);
                                assert(start.probe_aux(store@, keys.subrange(0, i + 1)) == (
                                    self@,
                                    true,
                                ));
                                lemma_probe_aux_failed(
                                    start,
                                    store@,
                                    keys,
                                    i + 1,
                                    pending@.len() as int,
                                );
                                assert(keys.subrange(0, pending@.len() as int) =~= keys);
                            }
                            return Err(e);
                        },
                    }
                },
            }
            i += 1;
        }
        proof {
            assert(keys.subrange(0, pending@.len() as int) =~= keys);
        }
        Ok(())
    }

    /// Asks the auxiliary-data log `store`; a failure is recorded as an
    /// error of the tier.
    pub fn fetch_aux_indexedlog(&mut self, store: &IndexedLogHgIdDataStore)
        ensures
            final(self)@ == old(self)@.fetch_aux_indexedlog(store@),
            old(self)@.inv() ==> final(self)@.inv() && final(self)@.same_probe(old(self)@),
    {
        proof {
            if self@.inv() {
                lemma_fetch_aux_indexedlog_inv(self@, store@);
            }
        }
        if let Err(err) = self.fetch_aux_indexedlog_inner(store) {
            self.other_error(err);
        }
    }

    /// Asks the large-file store `store`, a tier of kind `typ`, for content
    /// of every pending key that lacks it.
    pub fn fetch_lfs(&mut self, store: &LfsStore, typ: LocalStoreType)
        ensures
            final(self)@ == old(self)@.fetch_lfs(store@, typ),
            old(self)@.inv() ==> final(self)@.inv() && final(self)@.same_probe(old(self)@),
    {
        proof {
            if self@.inv() {
                lemma_fetch_lfs_inv(self@, store@, typ);
            }
        }
        let pending = self.pending_storekey(FileAttributes::only_content());
        let ghost keys = storekeys_view(pending@);
        let ghost start = self@;
        let mut i: usize = 0;
        while i < pending.len()
            invariant
                i <= pending@.len(),
                keys == storekeys_view(pending@),
                self@ == start.probe_lfs(store@, keys.subrange(0, i as int), typ),
            decreases pending@.len() - i,
        {
            proof {
                assert(keys.subrange(0, i + 1).drop_last() =~= keys.subrange(0, i as int));
                assert(keys.subrange(0, i + 1).last() == pending@[i as int]@);
            }
            let store_key = pending[i].clone();
            let found = store.fetch_available(&store_key);
            match (store_key.maybe_into_key(), found) {
                (Some(key), Ok(Some(entry))) => self.found_lfs(key, entry, typ),
                (Some(key), Err(err)) => self.keyed_error(key, err),
                _ => {},
            }
            i += 1;
        }
        proof {
            assert(keys.subrange(0, pending@.len() as int) =~= keys);
        }
    }

    /// Asks the distributed memory cache for every pending key that has no
    /// pointer yet. Fails, changing nothing, exactly when the cache is asked
    /// and is out of reach.
    pub fn fetch_memcache_inner(&mut self, store: &MemcacheStore) -> (r: Result<(), StoreError>)
        ensures
            match r {
                Ok(()) => old(self)@.remote_failure(store@) is None && final(self)@.other_errors
                    == old(self)@.other_errors && final(self)@ == old(
                    self,
                )@.fetch_memcache(store@),
                Err(e) => old(self)@.remote_failure(store@) == Some(e) && final(self)@ == old(
                    self,
                )@ && old(self)@.fetch_memcache(store@) == old(self)@.other_error(e),
            },
    {
        let pending = self.pending_nonlfs(FileAttributes::only_content());
        if pending.is_empty() {
            return Ok(());
        }
        let entries = match store.get_data_iter(pending.as_slice()) {
            Ok(entries) => entries,
            Err(e) => {
                return Err(e);
            },
        };
        let ghost all = entries@.map_values(|e: Entry| e@);
        let ghost start = self@;
        let mut entries = entries;
        let mut i: usize = 0;
        let n = entries.len();
        while i < n
            invariant
                i <= n,
                n == all.len(),
                forall|j: int| i <= j < n ==> (#[trigger] entries@[j])@ == all[j],
                entries@.len() == n,
                self@ == start.probe_memcache(all.subrange(0, i as int)),
                self@.other_errors == start.other_errors,
            decreases n - i,
        {
            proof {
                assert(all.subrange(0, i + 1).drop_last() =~= all.subrange(0, i as int));
                assert(all.subrange(0, i + 1).last() == all[i as int]);
            }
            let mcdata = entries[i].clone();
            self.found_memcache(mcdata);
            i += 1;
        }
        proof {
            assert(all.subrange(0, n as int) =~= all);
        }
        Ok(())
    }

    /// Asks the distributed memory cache; a failure is recorded as an error
    /// of the tier.
    pub fn fetch_memcache(&mut self, store: &MemcacheStore)
        ensures
            final(self)@ == old(self)@.fetch_memcache(store@),
            old(self)@.inv() ==> final(self)@.inv() && final(self)@.same_probe(old(self)@),
    {
        proof {
            if self@.inv() {
                lemma_fetch_memcache_inv(self@, store@);
            }
        }
        if let Err(err) = self.fetch_memcache_inner(store) {
            self.other_error(err);
        }
    }

    /// Asks the remote API for every pending key that has no pointer yet.
    /// Fails, changing nothing, exactly when the server is asked and is out
    /// of reach.
    pub fn fetch_edenapi_inner(&mut self, store: &EdenApiFileStore) -> (r: Result<(), StoreError>)
        ensures
            match r {
                Ok(()) => old(self)@.remote_failure(store@) is None && final(self)@.other_errors
                    == old(self)@.other_errors && final(self)@ == old(
                    self,
                )@.fetch_edenapi(store@),
                Err(e) => old(self)@.remote_failure(store@) == Some(e) && final(self)@ == old(
                    self,
                )@ && old(self)@.fetch_edenapi(store@) == old(self)@.other_error(e),
            },
    {
        let pending = self.pending_nonlfs(FileAttributes::only_content());
        if pending.is_empty() {
            return Ok(());
        }
        let entries = match store.files_blocking(pending) {
            Ok(entries) => entries,
            Err(e) => {
                return Err(e);
            },
        };
        let ghost all = entries@.map_values(|e: Entry| e@);
        let ghost start = self@;
        let mut i: usize = 0;
        let n = entries.len();
        while i < n
            invariant
                i <= n,
                n == all.len(),
                forall|j: int| i <= j < n ==> (#[trigger] entries@[j])@ == all[j],
                entries@.len() == n,
                self@ == start.probe_edenapi(all.subrange(0, i as int)),
                self@.other_errors == start.other_errors,
            decreases n - i,
        {
            proof {
                assert(all.subrange(0, i + 1).drop_last() =~= all.subrange(0, i as int));
                assert(all.subrange(0, i + 1).last() == all[i as int]);
            }
            let entry = entries[i].clone();
            self.found_edenapi(entry);
            i += 1;
        }
        proof {
            assert(all.subrange(0, n as int) =~= all);
        }
        Ok(())
    }

    /// Asks the remote API; a failure is recorded as an error of the tier.
    pub fn fetch_edenapi(&mut self, store: &EdenApiFileStore)
        ensures
            final(self)@ == old(self)@.fetch_edenapi(store@),
            old(self)@.inv() ==> final(self)@.inv() && final(self)@.same_probe(old(self)@),
    {
        proof {
            if self@.inv() {
                lemma_fetch_edenapi_inv(self@, store@);
            }
        }
        if let Err(err) = self.fetch_edenapi_inner(store) {
            self.other_error(err);
        }
    }

    /// Asks the legacy store for every pending key that lacks content.
    /// Fails, changing nothing, exactly when the store is asked and is out of
    /// reach.
    pub fn fetch_contentstore_inner(&mut self, store: &ContentStore) -> (r: Result<(), StoreError>)
        ensures
            match r {
                Ok(()) => old(self)@.contentstore_failure(store@) is None && final(self)@.other_errors
                    == old(self)@.other_errors && final(self)@ == old(
                    self,
                )@.fetch_contentstore(store@),
                Err(e) => old(self)@.contentstore_failure(store@) == Some(e) && final(self)@
                    == old(self)@ && old(self)@.fetch_contentstore(store@) == old(
                    self,
                )@.other_error(e),
            },
    {
        let pending = self.pending_storekey(FileAttributes::only_content());
        if pending.is_empty() {
            return Ok(());
        }
        match store.prefetch(pending.as_slice()) {
            Ok(()) => {},
            Err(e) => {
                return Err(e);
            },
        }
        let ghost keys = storekeys_view(pending@);
        let ghost start = self@;
        let mut i: usize = 0;
        while i < pending.len()
            invariant
                i <= pending@.len(),
                keys == storekeys_view(pending@),
                store@.available,
                self@ == start.probe_contentstore(store@, keys.subrange(0, i as int)),
                self@.other_errors == start.other_errors,
            decreases pending@.len() - i,
        {
            proof {
                assert(keys.subrange(0, i + 1).drop_last() =~= keys.subrange(0, i as int));
                assert(keys.subrange(0, i + 1).last() == pending@[i as int]@);
            }
            let store_key = pending[i].clone();
            // Fetch the stored bytes, then, if they are found, also the
            // metadata.
            let blob = store.get(&store_key);
            let meta = store.get_meta(&store_key);
            match store_key.maybe_into_key() {
                Some(key) => {
                    self.count_fallback_fetch(&key);
                    match (blob, meta) {
                        (Ok(Some(blob)), Ok(Some(meta))) => self.found_contentstore(
                            key,
                            blob,
                            meta,
                        ),
                        (Err(err), _) => {
                            self.count_fallback_miss(&key);
                            self.keyed_error(key, err)
                        },
                        (_, Err(err)) => {
                            self.count_fallback_miss(&key);
                            self.keyed_error(key, err)
                        },
                        _ => {
                            self.count_fallback_miss(&key);
                        },
                    }
                },
                None => {},
            }
            i += 1;
        }
        proof {
            assert(keys.subrange(0, pending@.len() as int) =~= keys);
        }
        Ok(())
    }

    /// Asks the legacy store; a failure is recorded as an error of the
    /// tier.
    pub fn fetch_contentstore(&mut self, store: &ContentStore)
        ensures
            final(self)@ == old(self)@.fetch_contentstore(store@),
            old(self)@.inv() ==> final(self)@.inv() && final(self)@.same_probe(old(self)@),
    {
        proof {
            if self@.inv() {
                lemma_fetch_contentstore_inv(self@, store@);
            }
        }
        if let Err(err) = self.fetch_contentstore_inner(store) {
            self.other_error(err);
        }
    }
}

/// Once an entry failed to parse, asking for more keys changes nothing.
proof fn lemma_probe_aux_failed(
    s: FetchModel,
    store: IndexedLogView,
    keys: Seq<KeyView>,
    i: int,
    n: int,
)
    requires
        0 <= i <= n <= keys.len(),
        s.probe_aux(store, keys.subrange(0, i)).1,
    ensures
        s.probe_aux(store, keys.subrange(0, n)) == s.probe_aux(store, keys.subrange(0, i)),
    decreases n - i,
{
    if i < n {
        lemma_probe_aux_failed(s, store, keys, i, n - 1);
        assert(keys.subrange(0, n).drop_last() =~= keys.subrange(0, n - 1));
    }
}

} // verus!
