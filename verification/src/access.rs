//! Ways to ask a file store that are built on `fetch`: for one key, for the
//! keys that are missing, and in the forms that older callers expect.

use crate::after::FetchResult;
use crate::attrs::FileAttributes;
use crate::error::StoreError;
use crate::file::{StoreFile, StoreFileView};
use crate::keys::{keys_view, Key, KeyView, Sha256};
use crate::result::{outcome_view, FileStoreFetch, FileStoreFetchView};
use crate::store::{FileStore, FileStoreView};
use crate::types::{storekeys_view, LfsPointersEntry, Metadata, StoreKey, StoreKeyView};
use crate::write::{batch_view, error_of};
use vstd::prelude::*;

verus! {

/// The answer to a question about one key: what was found, or the key that
/// was not.
#[derive(Debug)]
pub enum StoreResult<T> {
    Found(T),
    NotFound(StoreKey),
}

/// Bytes to write for a key: the full text, or a delta against a base
/// revision.
#[derive(Debug)]
pub struct Delta {
    pub data: Vec<u8>,
    pub base: Option<Key>,
    pub key: Key,
}

/// What a large-file pointer says about content.
#[derive(Clone, Copy, Debug)]
pub struct ContentMetadata {
    pub size: u64,
    pub hash: Sha256,
}

impl FetchResult {
    /// The outcome for `k` of a fetch that asked for at most the key `k`:
    /// the last error of a whole tier, if there is one; else, if the key is
    /// incomplete, its last error, or `None` if it has none; else its file;
    /// else an error, as nothing was asked for.
    pub open spec fn single(self, k: KeyView) -> Result<Option<StoreFileView>, StoreError> {
        if self.other_errors.len() > 0 {
            Err(self.other_errors.last())
        } else if self.incomplete.contains_key(k) {
            if self.incomplete[k].len() > 0 {
                Err(self.incomplete[k].last())
            } else {
                Ok(None)
            }
        } else if self.complete.contains_key(k) {
            Ok(Some(self.complete[k]))
        } else {
            Err(StoreError::NoResults)
        }
    }

    /// No tier failed as a whole, and no key has errors.
    pub open spec fn no_errors(self) -> bool {
        &&& self.other_errors.len() == 0
        &&& forall|k: KeyView| #[trigger]
            self.incomplete.contains_key(k) ==> self.incomplete[k].len() == 0
    }

    /// `e` is the last error of a whole tier, or, if there is none, the
    /// last error of some key.
    pub open spec fn is_error(self, e: StoreError) -> bool {
        if self.other_errors.len() > 0 {
            e == self.other_errors.last()
        } else {
            exists|k: KeyView|
                self.incomplete.contains_key(k) && self.incomplete[k].len() > 0 && e
                    == self.incomplete[k].last()
        }
    }
}

/// The keys inside the store keys that have one, in order.
pub open spec fn inner_keys(keys: Seq<StoreKeyView>) -> Seq<KeyView>
    decreases keys.len(),
{
    if keys.len() == 0 {
        Seq::empty()
    } else {
        let front = inner_keys(keys.drop_last());
        match keys.last().maybe_key() {
            Some(k) => front.push(k),
            None => front,
        }
    }
}

/// The keys a question about one store key is about.
pub open spec fn asked_keys(key: StoreKeyView) -> Seq<KeyView> {
    match key.maybe_key() {
        Some(k) => seq![k],
        None => Seq::empty(),
    }
}

/// The key that the outcome of a question about `key` is read for.
pub open spec fn asked_key(key: StoreKeyView) -> KeyView {
    match key.maybe_key() {
        Some(k) => k,
        None => arbitrary(),
    }
}

impl FileStoreView {
    /// What a fetch of the one key `k` returns for it.
    pub open spec fn fetch_single(self, k: KeyView, attrs: FileAttributes) -> Result<
        Option<StoreFileView>,
        StoreError,
    > {
        self.fetch_result(seq![k], attrs).single(k)
    }

    /// What a fetch of content for the key inside `key` returns for it.
    pub open spec fn fetch_storekey(self, key: StoreKeyView) -> Result<
        Option<StoreFileView>,
        StoreError,
    > {
        self.fetch_result(asked_keys(key), FileAttributes::spec_only_content()).single(
            asked_key(key),
        )
    }

    /// The store in which the caches of this store take the place of its
    /// local stores, and which has no other tier: what is written to it goes
    /// to the caches.
    pub open spec fn shared_mutable(self) -> FileStoreView {
        FileStoreView {
            indexedlog_local: self.indexedlog_cache,
            lfs_local: self.lfs_cache,
            indexedlog_cache: None,
            lfs_cache: None,
            cache_to_local_cache: false,
            memcache: None,
            cache_to_memcache: false,
            edenapi: None,
            lfs_remote: None,
            contentstore: None,
            aux_local: None,
            aux_cache: None,
            ..self
        }
    }

    /// This store with the tiers beyond local disk taken from `other`.
    pub open spec fn with_remote_of(self, other: FileStoreView) -> FileStoreView {
        FileStoreView {
            memcache: other.memcache,
            edenapi: other.edenapi,
            lfs_remote: other.lfs_remote,
            contentstore: other.contentstore,
            ..self
        }
    }
}

/// The outcome of a fetch for at most one key, read off the result.
pub proof fn lemma_single(r: FileStoreFetchView, m: FetchResult, keys: Seq<KeyView>, k: KeyView)
    requires
        r.complete.wf(),
        r.incomplete.wf(),
        r.complete.map == m.complete,
        r.incomplete.map == m.incomplete,
        r.other_errors == m.other_errors,
        forall|x: KeyView| keys.contains(x) ==> x == k,
        forall|x: KeyView|
            keys.contains(x) <==> (m.complete.contains_key(x) || m.incomplete.contains_key(x)),
    ensures
        r.single(m.single(k)),
{
    if r.other_errors.len() == 0 {
        if r.incomplete.keys.len() > 0 {
            let x = r.incomplete.keys[0];
            assert(r.incomplete.keys.contains(x));
            assert(m.incomplete.contains_key(x));
            assert(keys.contains(x));
        } else {
            assert(!r.incomplete.keys.contains(k));
            if r.complete.keys.len() > 0 {
                let x = r.complete.keys.last();
                assert(r.complete.keys[r.complete.keys.len() - 1] == x);
                assert(r.complete.keys.contains(x));
                assert(m.complete.contains_key(x));
                assert(keys.contains(x));
            } else {
                assert(!r.complete.keys.contains(k));
            }
        }
    }
}

/// The pointer that the file's content came with, if it is large-file
/// content.
pub open spec fn pointer_of(f: StoreFileView) -> Option<LfsPointersEntry> {
    match f.content {
        Some(crate::file::LazyFileView::Lfs(_, p)) => Some(p),
        _ => None,
    }
}

/// The store key asks by key for a key that the fetch left incomplete.
pub open spec fn names_incomplete(m: FetchResult, key: StoreKeyView) -> bool {
    match key {
        StoreKeyView::HgId(k) => m.incomplete.contains_key(k),
        StoreKeyView::Content(_, _) => false,
    }
}

/// `r` is what a question for the missing keys returns, given the result
/// `m` of the fetch: if nothing failed, the incomplete keys, each once; else
/// an error of the fetch.
pub open spec fn is_missing(m: FetchResult, r: Result<Vec<StoreKey>, StoreError>) -> bool {
    match r {
        Ok(v) => {
            &&& m.no_errors()
            &&& forall|i: int| 0 <= i < v@.len() ==> names_incomplete(m, (#[trigger] v@[i])@)
            &&& forall|k: KeyView|
                m.incomplete.contains_key(k) ==> exists|i: int|
                    0 <= i < v@.len() && (#[trigger] v@[i])@ == StoreKeyView::HgId(k)
            &&& forall|i: int, j: int|
                0 <= i < j < v@.len() ==> (#[trigger] v@[i])@ != (#[trigger] v@[j])@
        },
        Err(e) => !m.no_errors() && m.is_error(e),
    }
}

fn keys_inside(keys: &[StoreKey]) -> (r: Vec<Key>)
    ensures
        keys_view(r@) == inner_keys(storekeys_view(keys@)),
{
    let ghost all = storekeys_view(keys@);
    let mut out: Vec<Key> = Vec::new();
    let mut i: usize = 0;
    while i < keys.len()
        invariant
            i <= keys@.len(),
            all == storekeys_view(keys@),
            keys_view(out@) == inner_keys(all.subrange(0, i as int)),
        decreases keys@.len() - i,
    {
        proof {
            assert(all.subrange(0, i + 1).drop_last() =~= all.subrange(0, i as int));
            assert(all.subrange(0, i + 1).last() == keys@[i as int]@);
        }
        match keys[i].clone().maybe_into_key() {
            Some(k) => {
                let ghost before = out@;
                out.push(k);
                assert(keys_view(out@) =~= keys_view(before).push(out@[out@.len() - 1]@));
            },
            None => {},
        }
        i += 1;
    }
    proof {
        assert(all.subrange(0, keys@.len() as int) =~= all);
    }
    out
}

fn missing_store_keys(fetched: FileStoreFetch) -> (r: Result<Vec<StoreKey>, StoreError>)
    requires
        fetched@.incomplete.wf(),
    ensures
        is_missing(
            FetchResult {
                complete: fetched@.complete.map,
                incomplete: fetched@.incomplete.map,
                other_errors: fetched@.other_errors,
            },
            r,
        ),
{
    let ghost f = fetched@;
    let ghost m = FetchResult {
        complete: f.complete.map,
        incomplete: f.incomplete.map,
        other_errors: f.other_errors,
    };
    match fetched.missing() {
        Ok(not_found) => {
            proof {
                assert forall|k: KeyView| #[trigger]
                    m.incomplete.contains_key(k) implies m.incomplete[k].len() == 0 by {
                    assert(f.incomplete.keys.contains(k));
                    let j = choose|j: int|
                        0 <= j < f.incomplete.keys.len() && f.incomplete.keys[j] == k;
                    assert(f.errors_at(j).len() == 0);
                }
            }
            let mut out: Vec<StoreKey> = Vec::new();
            let n = not_found.len();
            let mut i: usize = 0;
            while i < n
                invariant
                    i <= n,
                    n == not_found@.len(),
                    out@.len() == i,
                    forall|j: int|
                        0 <= j < i ==> (#[trigger] out@[j])@ == StoreKeyView::HgId(
                            not_found@[j]@,
                        ),
                decreases n - i,
            {
                out.push(StoreKey::HgId(not_found[i].clone()));
                i += 1;
            }
            proof {
                let ks = keys_view(not_found@);
                assert(ks == f.incomplete.keys);
                assert forall|i: int| 0 <= i < out@.len() implies names_incomplete(
                    m,
                    (#[trigger] out@[i])@,
                ) by {
                    assert(ks[i] == not_found@[i]@);
                    assert(f.incomplete.keys.contains(ks[i]));
                }
                assert forall|k: KeyView| m.incomplete.contains_key(k) implies exists|i: int|
                    0 <= i < out@.len() && (#[trigger] out@[i])@ == StoreKeyView::HgId(k) by {
                    assert(f.incomplete.keys.contains(k));
                    let j = choose|j: int|
                        0 <= j < f.incomplete.keys.len() && f.incomplete.keys[j] == k;
                    assert(ks[j] == not_found@[j]@);
                    assert(out@[j]@ == StoreKeyView::HgId(k));
                }
                assert forall|i: int, j: int| 0 <= i < j < out@.len() implies (#[trigger] out@[i])@
                    != (#[trigger] out@[j])@ by {
                    assert(ks[i] == not_found@[i]@);
                    assert(ks[j] == not_found@[j]@);
                    assert(ks[i] != ks[j]);
                }
                assert(m.no_errors());
            }
            let ghost listed = out@;
            let r: Result<Vec<StoreKey>, StoreError> = Ok(out);
            proof {
                assert(r is Ok);
                let v = r->Ok_0;
                assert(v@ == listed);
                assert forall|i: int| 0 <= i < v@.len() implies names_incomplete(
                    m,
                    (#[trigger] v@[i])@,
                ) by {
                    assert(names_incomplete(m, listed[i]@));
                }
                assert forall|k: KeyView| m.incomplete.contains_key(k) implies exists|i: int|
                    0 <= i < v@.len() && (#[trigger] v@[i])@ == StoreKeyView::HgId(k) by {
                    let i = choose|i: int|
                        0 <= i < listed.len() && (#[trigger] listed[i])@ == StoreKeyView::HgId(k);
                    assert(v@[i]@ == StoreKeyView::HgId(k));
                }
                assert forall|i: int, j: int| 0 <= i < j < v@.len() implies (#[trigger] v@[i])@
                    != (#[trigger] v@[j])@ by {
                    assert(listed[i]@ != listed[j]@);
                }
            }
            r
        },
        Err(e) => {
            proof {
                if f.other_errors.len() == 0 {
                    let i = choose|i: int| f.first_failed(i) && e == f.errors_at(i).last();
                    let k = f.incomplete.keys[i];
                    assert(f.incomplete.keys.contains(k));
                    assert(m.incomplete.contains_key(k) && m.incomplete[k].len() > 0);
                    assert(e == m.incomplete[k].last());
                    assert(m.is_error(e));
                    assert(!m.no_errors());
                } else {
                    assert(m.is_error(e));
                    assert(!m.no_errors());
                }
            }
            let r = Err(e);
            assert(is_missing(m, r));
            r
        },
    }
}

fn storekey_keys(key: &StoreKey) -> (r: Vec<Key>)
    ensures
        keys_view(r@) == asked_keys(key@),
{
    let mut out: Vec<Key> = Vec::new();
    match key.clone().maybe_into_key() {
        Some(k) => {
            out.push(k);
            assert(keys_view(out@) =~= asked_keys(key@));
        },
        None => {
            assert(keys_view(out@) =~= asked_keys(key@));
        },
    }
    out
}

impl FileStore {
    /// Fetches the attributes `attrs` of the one key `key`: the file if it
    /// was found complete, `None` if it was not found, or an error that was
    /// met.
    pub fn fetch_single(&mut self, key: Key, attrs: FileAttributes) -> (r: Result<
        Option<StoreFile>,
        StoreError,
    >)
        ensures
            final(self)@ == old(self)@.after_fetch(seq![key@], attrs),
            outcome_view(r) == old(self)@.fetch_single(key@, attrs),
            r matches Ok(Some(f)) ==> f@.attrs().spec_has(attrs),
    {
        let ghost k = key@;
        let mut keys: Vec<Key> = Vec::new();
        keys.push(key);
        assert(keys_view(keys@) =~= seq![k]);
        let fetched = self.fetch(keys, attrs);
        proof {
            assert forall|x: KeyView| seq![k].contains(x) implies x == k by {}
            lemma_single(fetched@, old(self)@.fetch_result(seq![k], attrs), seq![k], k);
        }
        fetched.single()
    }

    /// Fetches content for the key inside `key`.
    fn fetch_storekey(&mut self, key: &StoreKey) -> (r: Result<Option<StoreFile>, StoreError>)
        ensures
            final(self)@ == old(self)@.after_fetch(
                asked_keys(key@),
                FileAttributes::spec_only_content(),
            ),
            outcome_view(r) == old(self)@.fetch_storekey(key@),
            r matches Ok(Some(f)) ==> f@.content is Some,
    {
        let keys = storekey_keys(key);
        let ghost kv = asked_keys(key@);
        let ghost k = asked_key(key@);
        let fetched = self.fetch(keys, FileAttributes::only_content());
        proof {
            assert forall|x: KeyView| kv.contains(x) implies x == k by {
                if key@.maybe_key() is Some {
                    assert(kv[0] == k);
                }
            }
            lemma_single(
                fetched@,
                old(self)@.fetch_result(kv, FileAttributes::spec_only_content()),
                kv,
                k,
            );
        }
        let r = fetched.single();
        proof {
            if outcome_view(r) matches Ok(Some(f)) {
                assert(fetched@.complete.keys.len() > 0);
                let x = fetched@.complete.keys.last();
                assert(fetched@.complete.keys[fetched@.complete.keys.len() - 1] == x);
                assert(fetched@.complete.keys.contains(x));
                assert(fetched@.complete.map.contains_key(x));
            }
        }
        r
    }

    /// The content of the file `key` as the working copy sees it, or
    /// `None` if the file was not found.
    pub fn get_file_content(&mut self, key: &Key) -> (r: Result<Option<Vec<u8>>, StoreError>)
        ensures
            final(self)@ == old(self)@.after_fetch(
                seq![key@],
                FileAttributes::spec_only_content(),
            ),
            match old(self)@.fetch_single(key@, FileAttributes::spec_only_content()) {
                Ok(Some(f)) => f.content is Some && (r matches Ok(Some(bytes)) && bytes@
                    == f.content->0.file_content()),
                Ok(None) => r == Ok::<Option<Vec<u8>>, StoreError>(None),
                Err(e) => r == Err::<Option<Vec<u8>>, StoreError>(e),
            },
    {
        match self.fetch_single(key.clone(), FileAttributes::only_content()) {
            Ok(Some(entry)) => match entry.file_content() {
                Ok(bytes) => Ok(Some(bytes)),
                Err(e) => Err(e),
            },
            Ok(None) => Ok(None),
            Err(e) => Err(e),
        }
    }

    /// The stored bytes of the file that `key` names, copy header
    /// included.
    pub fn get(&mut self, key: StoreKey) -> (r: Result<StoreResult<Vec<u8>>, StoreError>)
        ensures
            final(self)@ == old(self)@.after_fetch(
                asked_keys(key@),
                FileAttributes::spec_only_content(),
            ),
            match old(self)@.fetch_storekey(key@) {
                Ok(Some(f)) => f.content is Some && (r matches Ok(StoreResult::Found(bytes))
                    && bytes@ == f.content->0.hg_content()),
                Ok(None) => r matches Ok(StoreResult::NotFound(k)) && k@ == key@,
                Err(e) => r matches Err(x) && x == e,
            },
    {
        match self.fetch_storekey(&key) {
            Ok(Some(entry)) => match entry.content() {
                Some(c) => Ok(StoreResult::Found(c.hg_content())),
                None => Ok(StoreResult::NotFound(key)),
            },
            Ok(None) => Ok(StoreResult::NotFound(key)),
            Err(e) => Err(e),
        }
    }

    /// The metadata of the file that `key` names.
    pub fn get_meta(&mut self, key: StoreKey) -> (r: Result<StoreResult<Metadata>, StoreError>)
        ensures
            final(self)@ == old(self)@.after_fetch(
                asked_keys(key@),
                FileAttributes::spec_only_content(),
            ),
            match old(self)@.fetch_storekey(key@) {
                Ok(Some(f)) => f.content is Some && (r matches Ok(StoreResult::Found(meta))
                    && meta == f.content->0.metadata()),
                Ok(None) => r matches Ok(StoreResult::NotFound(k)) && k@ == key@,
                Err(e) => r matches Err(x) && x == e,
            },
    {
        match self.fetch_storekey(&key) {
            Ok(Some(entry)) => match entry.content() {
                Some(c) => Ok(StoreResult::Found(c.metadata())),
                None => Ok(StoreResult::NotFound(key)),
            },
            Ok(None) => Ok(StoreResult::NotFound(key)),
            Err(e) => Err(e),
        }
    }

    /// The content of the file that `key` names, as the working copy sees
    /// it.
    pub fn blob(&mut self, key: StoreKey) -> (r: Result<StoreResult<Vec<u8>>, StoreError>)
        ensures
            final(self)@ == old(self)@.after_fetch(
                asked_keys(key@),
                FileAttributes::spec_only_content(),
            ),
            match old(self)@.fetch_storekey(key@) {
                Ok(Some(f)) => f.content is Some && (r matches Ok(StoreResult::Found(bytes))
                    && bytes@ == f.content->0.file_content()),
                Ok(None) => r matches Ok(StoreResult::NotFound(k)) && k@ == key@,
                Err(e) => r matches Err(x) && x == e,
            },
    {
        match self.fetch_storekey(&key) {
            Ok(Some(entry)) => match entry.content() {
                Some(c) => Ok(StoreResult::Found(c.file_content())),
                None => Ok(StoreResult::NotFound(key)),
            },
            Ok(None) => Ok(StoreResult::NotFound(key)),
            Err(e) => Err(e),
        }
    }

    /// What the pointer of the file that `key` names says about its
    /// content, if the file is a large file.
    pub fn metadata(&mut self, key: StoreKey) -> (r: Result<
        StoreResult<ContentMetadata>,
        StoreError,
    >)
        ensures
            final(self)@ == old(self)@.after_fetch(
                asked_keys(key@),
                FileAttributes::spec_only_content(),
            ),
            match old(self)@.fetch_storekey(key@) {
                Ok(Some(f)) => match pointer_of(f) {
                    Some(p) => r matches Ok(StoreResult::Found(m)) && m.size == p.size && m.hash
                        == p.sha256,
                    None => r matches Ok(StoreResult::NotFound(k)) && k@ == key@,
                },
                Ok(None) => r matches Ok(StoreResult::NotFound(k)) && k@ == key@,
                Err(e) => r matches Err(x) && x == e,
            },
    {
        match self.fetch_storekey(&key) {
            Ok(Some(entry)) => match entry.content() {
                Some(crate::file::LazyFile::Lfs(_, pointer)) => Ok(
                    StoreResult::Found(
                        ContentMetadata { size: pointer.size(), hash: pointer.sha256() },
                    ),
                ),
                _ => Ok(StoreResult::NotFound(key)),
            },
            Ok(None) => Ok(StoreResult::NotFound(key)),
            Err(e) => Err(e),
        }
    }

    /// Nothing needs rescanning: the tiers are read as they are.
    pub fn refresh(&self) -> (r: Result<(), StoreError>)
        ensures
            r is Ok,
    {
        Ok(())
    }

    /// Writes the full text of a delta. A delta against a base revision is
    /// refused.
    pub fn add(&mut self, delta: &Delta, metadata: &Metadata) -> (r: Result<(), StoreError>)
        ensures
            match delta.base {
                None => (final(self)@, error_of(r)) == old(self)@.write_batch(
                    seq![(delta.key@, delta.data@, *metadata)],
                ),
                Some(_) => final(self)@ == old(self)@ && r == Err::<(), StoreError>(
                    StoreError::DeltaBaseUnsupported,
                ),
            },
    {
        match &delta.base {
            None => {
                let mut entries: Vec<(Key, Vec<u8>, Metadata)> = Vec::new();
                entries.push(
                    (
                        delta.key.clone(),
                        crate::keys::bytes_clone(delta.data.as_slice()),
                        *metadata,
                    ),
                );
                assert(batch_view(entries@) =~= seq![(delta.key@, delta.data@, *metadata)]);
                self.write_batch(entries)
            },
            Some(_) => Err(StoreError::DeltaBaseUnsupported),
        }
    }

    /// Turns the store into one whose local stores are the caches of this
    /// store, so that writes go to the caches.
    pub fn get_shared_mutable(self) -> (r: Self)
        requires
            self@.indexedlog_cache is Some || self@.lfs_cache is Some,
        ensures
            r@ == self@.shared_mutable(),
    {
        FileStore {
            extstored_policy: self.extstored_policy,
            lfs_threshold_bytes: self.lfs_threshold_bytes,
            indexedlog_local: self.indexedlog_cache,
            lfs_local: self.lfs_cache,
            indexedlog_cache: None,
            lfs_cache: None,
            cache_to_local_cache: false,
            memcache: None,
            cache_to_memcache: false,
            allow_writing_lfs_ptrs: self.allow_writing_lfs_ptrs,
            edenapi: None,
            lfs_remote: None,
            contentstore: None,
            fallbacks: self.fallbacks,
            aux_local: None,
            aux_cache: None,
        }
    }

    /// Fetches content for the keys inside `keys` and returns the keys that
    /// could not be found, or an error that was met.
    pub fn prefetch(&mut self, keys: &[StoreKey]) -> (r: Result<Vec<StoreKey>, StoreError>)
        ensures
            final(self)@ == old(self)@.after_fetch(
                inner_keys(storekeys_view(keys@)),
                FileAttributes::spec_only_content(),
            ),
            is_missing(
                old(self)@.fetch_result(
                    inner_keys(storekeys_view(keys@)),
                    FileAttributes::spec_only_content(),
                ),
                r,
            ),
    {
        let wanted = keys_inside(keys);
        let fetched = self.fetch(wanted, FileAttributes::only_content());
        missing_store_keys(fetched)
    }

    /// Asks the tiers on local disk for content of the keys inside `keys`
    /// and returns the keys that they do not have, or an error that was
    /// met.
    pub fn get_missing(&mut self, keys: &[StoreKey]) -> (r: Result<Vec<StoreKey>, StoreError>)
        ensures
            final(self)@ == old(self)@.local().after_fetch(
                inner_keys(storekeys_view(keys@)),
                FileAttributes::spec_only_content(),
            ).with_remote_of(old(self)@),
            is_missing(
                old(self)@.local().fetch_result(
                    inner_keys(storekeys_view(keys@)),
                    FileAttributes::spec_only_content(),
                ),
                r,
            ),
    {
        let wanted = keys_inside(keys);
        let fetched = self.fetch_local(wanted, FileAttributes::only_content());
        missing_store_keys(fetched)
    }

    /// Fetch the attributes `attrs` of `keys` from the tiers on local disk
    /// only. The other tiers are neither asked nor written to.
    pub fn fetch_local(&mut self, keys: Vec<Key>, attrs: FileAttributes) -> (r: FileStoreFetch)
        ensures
            final(self)@ == old(self)@.local().after_fetch(keys_view(keys@), attrs).with_remote_of(
                old(self)@,
            ),
            r@.complete.wf(),
            r@.incomplete.wf(),
            r@.complete.map == old(self)@.local().fetch_result(keys_view(keys@), attrs).complete,
            r@.incomplete.map == old(self)@.local().fetch_result(
                keys_view(keys@),
                attrs,
            ).incomplete,
            r@.other_errors == old(self)@.local().fetch_result(
                keys_view(keys@),
                attrs,
            ).other_errors,
    {
        let memcache = self.memcache.take();
        let edenapi = self.edenapi.take();
        let lfs_remote = self.lfs_remote.take();
        let contentstore = self.contentstore.take();
        assert(self@ == old(self)@.local());
        let r = self.fetch(keys, attrs);
        self.memcache = memcache;
        self.edenapi = edenapi;
        self.lfs_remote = lfs_remote;
        self.contentstore = contentstore;
        r
    }
}

} // verus!
