use scmstore::attrs::FileAttributes;
use scmstore::codec::{
    aux_from_bytes, aux_to_bytes, content_sha256, pointer_from_entry, pointer_to_bytes,
};
use scmstore::error::StoreError;
use scmstore::file::{LazyFile, StoreFile};
use scmstore::keys::{HgId, Key, Sha256};
use scmstore::state::{ContentStoreFallbacks, FetchState};
use scmstore::store::FileStore;
use scmstore::stores::{
    ContentStore, EdenApiFileStore, IndexedLogHgIdDataStore, LfsRemote, LfsStore, MemcacheStore,
};
use scmstore::write::DiskTier;
use scmstore::types::{
    Entry, ExtStoredPolicy, FileAuxData, LfsPointersEntry, LfsStoreEntry, LocalStoreType,
    Metadata, StoreKey, LFS_FLAG,
};

fn key(path: &str, id: u8) -> Key {
    Key::new(path.as_bytes().to_vec(), HgId::from_bytes([id; 20]))
}

fn plain(k: &Key, bytes: &[u8]) -> Entry {
    Entry::new(k.clone(), bytes.to_vec(), Metadata::empty())
}

fn lfs_meta() -> Metadata {
    Metadata { size: None, flags: Some(LFS_FLAG) }
}

fn pointer_entry(k: &Key, content: &[u8]) -> Entry {
    let ptr = LfsPointersEntry::new(k.hgid, content.len() as u64, content_sha256(content));
    Entry::new(k.clone(), pointer_to_bytes(&ptr), lfs_meta())
}

fn log_with(entries: Vec<Entry>) -> IndexedLogHgIdDataStore {
    let mut log = IndexedLogHgIdDataStore::new();
    for e in entries {
        log.put_entry(e).unwrap();
    }
    log
}

fn content_of(file: &StoreFile) -> Vec<u8> {
    file.file_content().unwrap()
}

// ---------------------------------------------------------------------
// Whole fetches
// ---------------------------------------------------------------------

#[test]
fn miss_everywhere() {
    let k = key("p1", 1);
    let mut store = FileStore::empty();
    store.indexedlog_local = Some(IndexedLogHgIdDataStore::new());
    let fetched = store.fetch(vec![k.clone()], FileAttributes::only_content());
    assert_eq!(fetched.complete.len(), 0);
    assert_eq!(fetched.incomplete.len(), 1);
    assert_eq!(fetched.incomplete.get(&k), Some(&vec![]));
    assert!(fetched.other_errors().is_empty());
}

#[test]
fn cache_hit_without_remote_call() {
    let k = key("p1", 1);
    let mut store = FileStore::empty();
    store.indexedlog_cache = Some(log_with(vec![plain(&k, b"hello")]));
    // A remote API that would fail, and that holds something else.
    let mut edenapi = EdenApiFileStore::new();
    edenapi.insert(plain(&k, b"from the server"));
    edenapi.set_available(false);
    store.edenapi = Some(edenapi);
    let fetched = store.fetch(vec![k.clone()], FileAttributes::only_content());
    assert_eq!(fetched.incomplete.len(), 0);
    assert_eq!(content_of(fetched.complete.get(&k).unwrap()), b"hello".to_vec());
    // Had the remote API been asked, its failure would have been recorded.
    assert!(fetched.other_errors().is_empty());
}

#[test]
fn remote_fetch_writes_through() {
    let k = key("p1", 1);
    let mut store = FileStore::empty();
    store.indexedlog_cache = Some(IndexedLogHgIdDataStore::new());
    let mut edenapi = EdenApiFileStore::new();
    edenapi.insert(plain(&k, b"world"));
    store.edenapi = Some(edenapi);
    let fetched = store.fetch(vec![k.clone()], FileAttributes::only_content());
    assert_eq!(content_of(fetched.complete.get(&k).unwrap()), b"world".to_vec());
    let cached = store.indexedlog_cache.as_ref().unwrap().get_raw_entry(&k).unwrap().unwrap();
    assert_eq!(cached.content(), &b"world".to_vec());
    assert_eq!(cached.key().path, b"p1".to_vec());
}

#[test]
fn nothing_left_to_write_back_after_write_back() {
    let k = key("p1", 1);
    let mut edenapi = EdenApiFileStore::new();
    edenapi.insert(plain(&k, b"world"));
    let mut state = FetchState::new(
        vec![k.clone()],
        FileAttributes { content: true, aux_data: true },
        ExtStoredPolicy::Ignore,
        ContentStoreFallbacks::new(),
    );
    state.fetch_edenapi(&edenapi);
    state.derive_computable();
    assert_eq!(state.writeback_counts(), (1, 0, 1));
    let mut cache = Some(IndexedLogHgIdDataStore::new());
    let mut memcache = None;
    let mut aux_cache = Some(IndexedLogHgIdDataStore::new());
    let mut aux_local = None;
    state.write_to_cache(&mut cache, &mut memcache, &mut aux_cache, &mut aux_local);
    assert_eq!(state.writeback_counts(), (0, 0, 0));
    assert!(cache.unwrap().get_raw_entry(&k).unwrap().is_some());
    assert!(aux_cache.unwrap().get_raw_entry(&k).unwrap().is_some());
}

#[test]
fn large_file_indirection() {
    let k = key("p1", 1);
    let sha = content_sha256(b"big");
    let mut store = FileStore::empty();
    store.extstored_policy = ExtStoredPolicy::Use;
    store.indexedlog_cache = Some(log_with(vec![pointer_entry(&k, b"big")]));
    store.lfs_cache = Some(LfsStore::new());
    let mut remote = LfsRemote::new();
    remote.insert(sha, b"big".to_vec());
    store.lfs_remote = Some(remote);
    let fetched = store.fetch(vec![k.clone()], FileAttributes::only_content());
    assert!(fetched.other_errors().is_empty());
    assert_eq!(fetched.incomplete.len(), 0);
    assert_eq!(content_of(fetched.complete.get(&k).unwrap()), b"big".to_vec());
    // The large-file cache now holds the blob under its hash.
    let by_hash = StoreKey::Content(sha, None);
    match store.lfs_cache.as_ref().unwrap().fetch_available(&by_hash).unwrap() {
        Some(LfsStoreEntry::PointerAndBlob(ptr, blob)) => {
            assert_eq!(blob, b"big".to_vec());
            assert_eq!(ptr.sha256.bytes, sha.bytes);
            assert_eq!(ptr.size, 3);
        }
        _ => panic!("the blob was not written through"),
    }
}

#[test]
fn aux_derivation() {
    let k = key("p1", 1);
    let mut store = FileStore::empty();
    store.indexedlog_local = Some(log_with(vec![plain(&k, b"hello")]));
    let fetched = store.fetch(vec![k.clone()], FileAttributes::only_aux());
    let file = fetched.complete.get(&k).unwrap();
    assert_eq!(
        file.aux_data().unwrap().content_sha256.bytes,
        content_sha256(b"hello").bytes
    );
    // Only what was requested is returned.
    assert_eq!(file.attrs(), FileAttributes::only_aux());
    assert_eq!(file.file_content().unwrap_err(), StoreError::NoContent);
}

#[test]
fn aux_derivation_is_written_to_the_local_aux_store() {
    let k = key("p1", 1);
    let mut store = FileStore::empty();
    store.indexedlog_local = Some(log_with(vec![plain(&k, b"hello")]));
    store.aux_local = Some(IndexedLogHgIdDataStore::new());
    store.aux_cache = Some(IndexedLogHgIdDataStore::new());
    let fetched = store.fetch(vec![k.clone()], FileAttributes::only_aux());
    assert!(fetched.complete.contains_key(&k));
    let written = store.aux_local.as_ref().unwrap().get_raw_entry(&k).unwrap().unwrap();
    let aux = aux_from_bytes(written.content()).unwrap();
    assert_eq!(aux.content_sha256.bytes, content_sha256(b"hello").bytes);
    // The key came from a local tier: the cache gets nothing.
    assert!(store.aux_cache.as_ref().unwrap().get_raw_entry(&k).unwrap().is_none());
}

// ---------------------------------------------------------------------
// What holds of every fetch, on chosen values
// ---------------------------------------------------------------------

#[test]
fn every_key_is_complete_or_incomplete() {
    let found = key("a", 1);
    let missing = key("b", 2);
    let broken = key("c", 3);
    let mut store = FileStore::empty();
    store.extstored_policy = ExtStoredPolicy::Use;
    store.indexedlog_local = Some(log_with(vec![
        plain(&found, b"one"),
        Entry::new(broken.clone(), b"not a pointer".to_vec(), lfs_meta()),
    ]));
    let attrs = FileAttributes { content: true, aux_data: true };
    let requested = vec![found.clone(), missing.clone(), broken.clone(), found.clone()];
    let fetched = store.fetch(requested, attrs);
    assert_eq!(fetched.complete.len() + fetched.incomplete.len(), 3);
    assert!(fetched.complete.contains_key(&found));
    assert!(!fetched.incomplete.contains_key(&found));
    assert!(fetched.complete.get(&found).unwrap().attrs().has(attrs));
    assert!(fetched.incomplete.contains_key(&missing));
    assert!(!fetched.complete.contains_key(&missing));
    assert_eq!(fetched.incomplete.get(&missing), Some(&vec![]));
    assert_eq!(
        fetched.incomplete.get(&broken),
        Some(&vec![StoreError::MalformedPointer])
    );
}

#[test]
fn empty_request_mask_completes_nothing() {
    let k = key("a", 1);
    let mut store = FileStore::empty();
    store.indexedlog_local = Some(log_with(vec![plain(&k, b"one")]));
    let fetched = store.fetch(vec![k.clone()], FileAttributes::empty());
    assert_eq!(fetched.complete.len(), 0);
    assert_eq!(fetched.incomplete.get(&k), Some(&vec![]));
}

#[test]
fn local_store_returns_what_a_local_tier_holds() {
    let small = key("a", 1);
    let large = key("b", 2);
    let mut store = FileStore::empty();
    store.indexedlog_cache = Some(log_with(vec![plain(&small, b"cached")]));
    store.indexedlog_local = Some(log_with(vec![plain(&small, b"local")]));
    let mut lfs = LfsStore::new();
    let ptr = LfsPointersEntry::new(large.hgid, 4, content_sha256(b"blob"));
    lfs.add_pointer(ptr).unwrap();
    lfs.add_blob(&ptr.sha256, b"blob".to_vec()).unwrap();
    store.lfs_local = Some(lfs);
    let fetched = store.fetch(vec![small.clone(), large.clone()], FileAttributes::only_content());
    // The cache is asked before the local store.
    match fetched.complete.get(&small).unwrap().content().unwrap() {
        LazyFile::IndexedLog(e) => assert_eq!(e.content(), &b"cached".to_vec()),
        _ => panic!("not from an indexed log"),
    }
    match fetched.complete.get(&large).unwrap().content().unwrap() {
        LazyFile::Lfs(blob, p) => {
            assert_eq!(blob, &b"blob".to_vec());
            assert_eq!(p.sha256.bytes, ptr.sha256.bytes);
        }
        _ => panic!("not from a large-file store"),
    }
}

#[test]
fn derived_aux_goes_to_the_tier_of_the_key_origin() {
    let cached = key("a", 1);
    let local = key("b", 2);
    let mut store = FileStore::empty();
    store.indexedlog_cache = Some(log_with(vec![plain(&cached, b"from cache")]));
    store.indexedlog_local = Some(log_with(vec![plain(&local, b"from local")]));
    store.aux_cache = Some(IndexedLogHgIdDataStore::new());
    store.aux_local = Some(IndexedLogHgIdDataStore::new());
    let attrs = FileAttributes { content: true, aux_data: true };
    let fetched = store.fetch(vec![cached.clone(), local.clone()], attrs);
    assert_eq!(fetched.complete.len(), 2);
    let aux_cache = store.aux_cache.as_ref().unwrap();
    let aux_local = store.aux_local.as_ref().unwrap();
    let in_cache = aux_cache.get_raw_entry(&cached).unwrap().unwrap();
    assert_eq!(
        in_cache.content(),
        &aux_to_bytes(&FileAuxData { content_sha256: content_sha256(b"from cache") })
    );
    assert!(aux_local.get_raw_entry(&cached).unwrap().is_none());
    let in_local = aux_local.get_raw_entry(&local).unwrap().unwrap();
    assert_eq!(
        in_local.content(),
        &aux_to_bytes(&FileAuxData { content_sha256: content_sha256(b"from local") })
    );
    assert!(aux_cache.get_raw_entry(&local).unwrap().is_none());
}

#[test]
fn stored_aux_data_is_found_without_content() {
    let k = key("a", 1);
    let aux = FileAuxData { content_sha256: Sha256::from_bytes([5u8; 32]) };
    let mut store = FileStore::empty();
    store.aux_cache = Some(log_with(vec![Entry::new(
        k.clone(),
        aux_to_bytes(&aux),
        Metadata::empty(),
    )]));
    let fetched = store.fetch(vec![k.clone()], FileAttributes::only_aux());
    let file = fetched.complete.get(&k).unwrap();
    assert_eq!(file.aux_data().unwrap().content_sha256.bytes, [5u8; 32]);
    assert!(file.content().is_none());
}

#[test]
fn malformed_aux_entry_is_an_error_of_the_tier() {
    let k = key("a", 1);
    let mut store = FileStore::empty();
    store.aux_cache = Some(log_with(vec![plain(&k, b"{}")]));
    store.indexedlog_local = Some(log_with(vec![plain(&k, b"hello")]));
    let fetched = store.fetch(vec![k.clone()], FileAttributes::only_aux());
    assert_eq!(fetched.other_errors(), &vec![StoreError::MalformedAuxData]);
    // The content tier still makes up for it.
    assert_eq!(
        fetched.complete.get(&k).unwrap().aux_data().unwrap().content_sha256.bytes,
        content_sha256(b"hello").bytes
    );
}

#[test]
fn write_then_fetch_round_trip() {
    let k = key("dir/file", 7);
    let with_header = b"\x01\ncopy: old\n\x01\nbody".to_vec();
    let mut store = FileStore::empty();
    store.indexedlog_local = Some(IndexedLogHgIdDataStore::new());
    store.indexedlog_cache = Some(IndexedLogHgIdDataStore::new());
    store
        .write_batch(vec![(k.clone(), with_header.clone(), Metadata::empty())])
        .unwrap();
    let fetched = store.fetch(vec![k.clone()], FileAttributes::only_content());
    let file = fetched.complete.get(&k).unwrap();
    assert_eq!(file.content().unwrap().hg_content(), with_header);
    assert_eq!(content_of(file), b"body".to_vec());
}

#[test]
fn large_file_round_trip() {
    let k = key("dir/big", 8);
    let bytes = b"\x01\ncopy: old\n\x01\n0123456789".to_vec();
    let mut store = FileStore::empty();
    store.lfs_threshold_bytes = Some(10);
    store.indexedlog_local = Some(IndexedLogHgIdDataStore::new());
    store.lfs_local = Some(LfsStore::new());
    store.write_batch(vec![(k.clone(), bytes, Metadata::empty())]).unwrap();
    // The pointer is filed under the revision, the content under its hash.
    let sha = content_sha256(b"0123456789");
    let lfs = store.lfs_local.as_ref().unwrap();
    match lfs.fetch_available(&StoreKey::HgId(k.clone())).unwrap() {
        Some(LfsStoreEntry::PointerAndBlob(ptr, blob)) => {
            assert_eq!(ptr.sha256.bytes, sha.bytes);
            assert_eq!(ptr.size, 10);
            assert_eq!(ptr.hgid.bytes, k.hgid.bytes);
            assert_eq!(blob, b"0123456789".to_vec());
        }
        _ => panic!("pointer and blob were not written"),
    }
    // The local indexed log holds the pointer as a flagged entry, not the
    // bytes that were written.
    let filed = store.indexedlog_local.as_ref().unwrap().get_raw_entry(&k).unwrap().unwrap();
    assert!(filed.metadata().is_lfs());
    let ptr = pointer_from_entry(&filed).unwrap();
    assert_eq!(ptr.sha256.bytes, sha.bytes);
    assert_eq!(ptr.size, 10);
    assert_eq!(ptr.hgid.bytes, k.hgid.bytes);
    let fetched = store.fetch(vec![k.clone()], FileAttributes::only_content());
    assert_eq!(content_of(fetched.complete.get(&k).unwrap()), b"0123456789".to_vec());
    // The same comes back where pointers in the indexed logs are followed.
    store.extstored_policy = ExtStoredPolicy::Use;
    let fetched = store.fetch(vec![k.clone()], FileAttributes::only_content());
    assert_eq!(content_of(fetched.complete.get(&k).unwrap()), b"0123456789".to_vec());
}

#[test]
fn large_file_needs_no_local_indexed_log() {
    let k = key("dir/big", 8);
    let mut store = FileStore::empty();
    store.lfs_threshold_bytes = Some(4);
    store.lfs_local = Some(LfsStore::new());
    store.write_batch(vec![(k.clone(), b"0123456789".to_vec(), Metadata::empty())]).unwrap();
    let fetched = store.fetch(vec![k.clone()], FileAttributes::only_content());
    assert_eq!(content_of(fetched.complete.get(&k).unwrap()), b"0123456789".to_vec());
}

#[test]
fn large_file_write_fails_if_the_indexed_log_refuses_the_pointer() {
    let k = key("dir/big", 8);
    let mut store = FileStore::empty();
    store.lfs_threshold_bytes = Some(4);
    store.lfs_local = Some(LfsStore::new());
    let mut log = IndexedLogHgIdDataStore::new();
    log.set_writable(false);
    store.indexedlog_local = Some(log);
    let r = store.write_batch(vec![(k.clone(), b"0123456789".to_vec(), Metadata::empty())]);
    assert_eq!(r.unwrap_err(), StoreError::Unavailable);
    // What the large-file store took stays there.
    let lfs = store.lfs_local.as_ref().unwrap();
    assert!(lfs.fetch_available(&StoreKey::HgId(k.clone())).unwrap().is_some());
    assert!(store.indexedlog_local.as_ref().unwrap().get_raw_entry(&k).unwrap().is_none());
}

#[test]
fn remote_pointers_are_ignored_unless_the_policy_is_to_use_them() {
    let k = key("p1", 1);
    let mut store = FileStore::empty();
    let mut remote = EdenApiFileStore::new();
    remote.insert(pointer_entry(&k, b"big"));
    store.edenapi = Some(remote);
    let mut memcache = MemcacheStore::new();
    memcache.add_mcdata(pointer_entry(&k, b"big"));
    store.memcache = Some(memcache);
    let mut lfs_remote = LfsRemote::new();
    lfs_remote.insert(content_sha256(b"big"), b"big".to_vec());
    store.lfs_remote = Some(lfs_remote);
    store.lfs_cache = Some(LfsStore::new());
    // Ignored: the key is not found, without an error.
    store.extstored_policy = ExtStoredPolicy::Ignore;
    let fetched = store.fetch(vec![k.clone()], FileAttributes::only_content());
    assert_eq!(fetched.complete.len(), 0);
    assert!(fetched.incomplete.get(&k).unwrap().is_empty());
    assert!(fetched.other_errors().is_empty());
    let mut state = FetchState::new(
        vec![k.clone()],
        FileAttributes::only_content(),
        ExtStoredPolicy::Ignore,
        ContentStoreFallbacks::new(),
    );
    state.found_edenapi(pointer_entry(&k, b"big"));
    state.found_memcache(Entry::new(k.clone(), b"not a pointer".to_vec(), lfs_meta()));
    assert!(state.pending(&k, FileAttributes::only_content()));
    assert_eq!(state.pending_nonlfs(FileAttributes::only_content()).len(), 1);
    assert_eq!(state.lfs_objects().len(), 0);
    let done = state.finish();
    assert!(done.incomplete.get(&k).unwrap().is_empty());
    // Used: the pointer is followed to the large-file server.
    store.extstored_policy = ExtStoredPolicy::Use;
    let fetched = store.fetch(vec![k.clone()], FileAttributes::only_content());
    assert_eq!(content_of(fetched.complete.get(&k).unwrap()), b"big".to_vec());
}

#[test]
fn aux_data_of_a_large_file_is_the_hash_of_its_content() {
    // Whatever hash the pointer carries and the blob is filed under.
    let k = key("p1", 1);
    let wrong = Sha256::from_bytes([7u8; 32]);
    let mut lfs = LfsStore::new();
    lfs.add_blob(&wrong, b"x".to_vec()).unwrap();
    lfs.add_pointer(LfsPointersEntry::new(k.hgid, 1, wrong)).unwrap();
    let mut store = FileStore::empty();
    store.lfs_local = Some(lfs);
    let fetched = store.fetch(vec![k.clone()], FileAttributes::only_aux());
    let file = fetched.complete.get(&k).unwrap();
    assert_eq!(file.aux_data().unwrap().content_sha256.bytes, content_sha256(b"x").bytes);
    let lazy = LazyFile::Lfs(b"x".to_vec(), LfsPointersEntry::new(k.hgid, 1, wrong));
    assert_eq!(lazy.aux_data().content_sha256.bytes, content_sha256(b"x").bytes);
}

#[test]
fn inner_remote_probe_reports_the_failure() {
    let k = key("p1", 1);
    let mut state = FetchState::new(
        vec![k.clone()],
        FileAttributes::only_content(),
        ExtStoredPolicy::Ignore,
        ContentStoreFallbacks::new(),
    );
    let mut remote = EdenApiFileStore::new();
    remote.set_available(false);
    assert_eq!(state.fetch_edenapi_inner(&remote).unwrap_err(), StoreError::Unavailable);
    let mut memcache = MemcacheStore::new();
    memcache.set_available(false);
    assert_eq!(state.fetch_memcache_inner(&memcache).unwrap_err(), StoreError::Unavailable);
    let mut legacy = ContentStore::new();
    legacy.set_available(false);
    assert_eq!(state.fetch_contentstore_inner(&legacy).unwrap_err(), StoreError::Unavailable);
    // Nothing was recorded by the inner probes themselves.
    let done = state.finish();
    assert!(done.other_errors().is_empty());
    // A tier in reach gives no error.
    let mut state = FetchState::new(
        vec![k.clone()],
        FileAttributes::only_content(),
        ExtStoredPolicy::Ignore,
        ContentStoreFallbacks::new(),
    );
    assert!(state.fetch_edenapi_inner(&EdenApiFileStore::new()).is_ok());
    assert!(state.finish().other_errors().is_empty());
}

#[test]
fn threshold_is_exclusive() {
    let at = key("at", 1);
    let over = key("over", 2);
    let mut store = FileStore::empty();
    store.lfs_threshold_bytes = Some(4);
    store.indexedlog_local = Some(IndexedLogHgIdDataStore::new());
    store.lfs_local = Some(LfsStore::new());
    store
        .write_batch(vec![
            (at.clone(), b"1234".to_vec(), Metadata::empty()),
            (over.clone(), b"12345".to_vec(), Metadata::empty()),
        ])
        .unwrap();
    let log = store.indexedlog_local.as_ref().unwrap();
    assert!(!log.get_raw_entry(&at).unwrap().unwrap().metadata().is_lfs());
    assert_eq!(log.get_raw_entry(&at).unwrap().unwrap().content(), &b"1234".to_vec());
    // Over the threshold only the pointer is filed in the log.
    assert!(log.get_raw_entry(&over).unwrap().unwrap().metadata().is_lfs());
    let lfs = store.lfs_local.as_ref().unwrap();
    assert!(lfs.fetch_available(&StoreKey::HgId(at)).unwrap().is_none());
    assert!(lfs.fetch_available(&StoreKey::HgId(over)).unwrap().is_some());
}

#[test]
fn mask_keeps_only_what_is_asked() {
    let k = key("a", 1);
    let both = || {
        let mut f = StoreFile::from_content(LazyFile::IndexedLog(plain(&k, b"x")));
        f.compute_aux_data().unwrap();
        f
    };
    assert_eq!(both().attrs(), FileAttributes { content: true, aux_data: true });
    assert_eq!(both().mask(FileAttributes::only_content()).attrs(), FileAttributes::only_content());
    assert_eq!(both().mask(FileAttributes::only_aux()).attrs(), FileAttributes::only_aux());
    assert_eq!(both().mask(FileAttributes::empty()).attrs(), FileAttributes::empty());
    let only_aux = StoreFile::from_aux_data(FileAuxData { content_sha256: content_sha256(b"") });
    assert_eq!(only_aux.mask(FileAttributes::only_content()).attrs(), FileAttributes::empty());
}

#[test]
fn union_is_left_biased() {
    let k = key("a", 1);
    let left = StoreFile::from_content(LazyFile::IndexedLog(plain(&k, b"left")));
    let right = StoreFile::from_content(LazyFile::IndexedLog(plain(&k, b"right")));
    let aux = StoreFile::from_aux_data(FileAuxData { content_sha256: content_sha256(b"z") });
    let merged = (left | right) | aux;
    assert_eq!(content_of(&merged), b"left".to_vec());
    assert_eq!(merged.aux_data().unwrap().content_sha256.bytes, content_sha256(b"z").bytes);
    let none = StoreFile::empty().or(StoreFile::default());
    assert_eq!(none.attrs(), FileAttributes::empty());
}

#[test]
fn compute_aux_data_needs_content() {
    let mut file = StoreFile::empty();
    assert_eq!(file.compute_aux_data().unwrap_err(), StoreError::NoContentForAuxData);
    assert!(file.aux_data().is_none());
}

// ---------------------------------------------------------------------
// Errors
// ---------------------------------------------------------------------

#[test]
fn keyed_error_is_dropped_when_a_later_tier_succeeds() {
    let k = key("a", 1);
    let mut store = FileStore::empty();
    store.extstored_policy = ExtStoredPolicy::Use;
    store.indexedlog_cache = Some(log_with(vec![Entry::new(
        k.clone(),
        b"garbage".to_vec(),
        lfs_meta(),
    )]));
    store.indexedlog_local = Some(log_with(vec![plain(&k, b"good")]));
    let fetched = store.fetch(vec![k.clone()], FileAttributes::only_content());
    assert_eq!(content_of(fetched.complete.get(&k).unwrap()), b"good".to_vec());
    assert!(!fetched.incomplete.contains_key(&k));
    assert!(fetched.other_errors().is_empty());
}

#[test]
fn ignored_pointers_are_misses() {
    let k = key("a", 1);
    let mut store = FileStore::empty();
    store.extstored_policy = ExtStoredPolicy::Ignore;
    store.indexedlog_cache = Some(log_with(vec![pointer_entry(&k, b"big")]));
    let mut lfs = LfsStore::new();
    lfs.add_blob(&content_sha256(b"big"), b"big".to_vec()).unwrap();
    store.lfs_cache = Some(lfs);
    let fetched = store.fetch(vec![k.clone()], FileAttributes::only_content());
    assert_eq!(fetched.complete.len(), 0);
    assert_eq!(fetched.incomplete.get(&k), Some(&vec![]));
}

#[test]
fn used_pointers_are_followed_into_the_local_tiers() {
    let k = key("a", 1);
    let mut store = FileStore::empty();
    store.extstored_policy = ExtStoredPolicy::Use;
    store.indexedlog_cache = Some(log_with(vec![pointer_entry(&k, b"big")]));
    let mut lfs = LfsStore::new();
    lfs.add_blob(&content_sha256(b"big"), b"big".to_vec()).unwrap();
    store.lfs_cache = Some(lfs);
    let fetched = store.fetch(vec![k.clone()], FileAttributes::only_content());
    assert_eq!(content_of(fetched.complete.get(&k).unwrap()), b"big".to_vec());
}

#[test]
fn unreachable_remote_is_an_error_of_the_tier() {
    let k = key("a", 1);
    let mut store = FileStore::empty();
    let mut edenapi = EdenApiFileStore::new();
    edenapi.insert(plain(&k, b"x"));
    edenapi.set_available(false);
    store.edenapi = Some(edenapi);
    let fetched = store.fetch(vec![k.clone()], FileAttributes::only_content());
    assert_eq!(fetched.other_errors(), &vec![StoreError::Unavailable]);
    assert_eq!(fetched.incomplete.get(&k), Some(&vec![]));
    assert_eq!(
        store.fetch_single(k.clone(), FileAttributes::only_content()).unwrap_err(),
        StoreError::Unavailable
    );
    let keys = [StoreKey::HgId(k)];
    assert_eq!(store.prefetch(&keys).unwrap_err(), StoreError::Unavailable);
    // The tiers on local disk have no such failure.
    assert_eq!(store.get_missing(&keys).unwrap().len(), 1);
}

#[test]
fn pointer_from_a_local_tier_needs_the_local_large_file_store() {
    let k = key("a", 1);
    let mut store = FileStore::empty();
    store.extstored_policy = ExtStoredPolicy::Use;
    store.indexedlog_local = Some(log_with(vec![pointer_entry(&k, b"big")]));
    store.lfs_cache = Some(LfsStore::new());
    let mut remote = LfsRemote::new();
    remote.insert(content_sha256(b"big"), b"big".to_vec());
    store.lfs_remote = Some(remote);
    let fetched = store.fetch(vec![k.clone()], FileAttributes::only_content());
    assert_eq!(fetched.other_errors(), &vec![StoreError::MissingLfsStore]);
    assert!(fetched.incomplete.contains_key(&k));
}

#[test]
fn blob_for_a_forgotten_pointer_has_no_source() {
    let k1 = key("a", 1);
    let k2 = key("b", 2);
    let sha = content_sha256(b"big");
    let ptr1 = LfsPointersEntry::new(k1.hgid, 3, sha);
    let ptr2 = LfsPointersEntry::new(k2.hgid, 3, sha);
    let mut state = FetchState::new(
        vec![k1.clone(), k2.clone()],
        FileAttributes::only_content(),
        ExtStoredPolicy::Use,
        ContentStoreFallbacks::new(),
    );
    state.found_pointer(k1.clone(), ptr1, LocalStoreType::Cache);
    state.found_pointer(k2.clone(), ptr2, LocalStoreType::Cache);
    assert_eq!(state.pointer_origin_of(&sha), Some(LocalStoreType::Cache));
    // Completing the first key forgets the origin of the hash it shares.
    state.found_lfs(
        k1.clone(),
        LfsStoreEntry::PointerAndBlob(ptr1, b"big".to_vec()),
        LocalStoreType::Cache,
    );
    assert_eq!(state.pointer_origin_of(&sha), None);
    let mut remote = LfsRemote::new();
    remote.insert(sha, b"big".to_vec());
    let mut local = None;
    let mut cache = Some(LfsStore::new());
    state.fetch_lfs_remote(&remote, &mut local, &mut cache);
    let fetched = state.finish();
    assert_eq!(fetched.other_errors(), &vec![StoreError::UnknownPointerSource]);
    assert!(fetched.complete.contains_key(&k1));
    assert!(fetched.incomplete.contains_key(&k2));
}

#[test]
fn pointer_origin_is_raised_but_never_lowered() {
    let k = key("a", 1);
    let sha = content_sha256(b"big");
    let ptr = LfsPointersEntry::new(k.hgid, 3, sha);
    let mut state = FetchState::new(
        vec![k.clone()],
        FileAttributes::only_content(),
        ExtStoredPolicy::Use,
        ContentStoreFallbacks::new(),
    );
    assert_eq!(state.pointer_origin_of(&sha), None);
    state.found_pointer(k.clone(), ptr, LocalStoreType::Local);
    assert_eq!(state.pointer_origin_of(&sha), Some(LocalStoreType::Local));
    state.found_pointer(k.clone(), ptr, LocalStoreType::Cache);
    assert_eq!(state.pointer_origin_of(&sha), Some(LocalStoreType::Cache));
    state.found_pointer(k.clone(), ptr, LocalStoreType::Local);
    assert_eq!(state.pointer_origin_of(&sha), Some(LocalStoreType::Cache));
    assert_eq!(state.lfs_objects().len(), 1);
    assert_eq!(state.lfs_objects()[0].1, 3);
}

#[test]
fn pending_lists() {
    let a = key("a", 1);
    let b = key("b", 2);
    let c = key("c", 3);
    let mut state = FetchState::new(
        vec![a.clone(), b.clone(), c.clone(), a.clone()],
        FileAttributes::only_content(),
        ExtStoredPolicy::Use,
        ContentStoreFallbacks::new(),
    );
    assert_eq!(state.pending_count(), 3);
    assert!(state.is_requested(&a));
    assert!(!state.is_requested(&key("a", 9)));
    assert_eq!(state.pending_all(FileAttributes::only_content()).len(), 3);
    // Asking an auxiliary-data tier helps nobody who wants content.
    assert_eq!(state.pending_all(FileAttributes::only_aux()).len(), 0);
    assert_eq!(state.pending_all(FileAttributes::empty()).len(), 0);
    let ptr = LfsPointersEntry::new(b.hgid, 3, content_sha256(b"big"));
    state.found_pointer(b.clone(), ptr, LocalStoreType::Local);
    let by_key = state.pending_nonlfs(FileAttributes::only_content());
    assert_eq!(by_key.len(), 2);
    assert_eq!(by_key[0].path, b"a".to_vec());
    assert_eq!(by_key[1].path, b"c".to_vec());
    let store_keys = state.pending_storekey(FileAttributes::only_content());
    assert_eq!(store_keys.len(), 3);
    assert!(matches!(store_keys[0], StoreKey::HgId(_)));
    match &store_keys[1] {
        StoreKey::Content(hash, Some(k)) => {
            assert_eq!(hash.bytes, ptr.sha256.bytes);
            assert_eq!(k.path, b"b".to_vec());
        }
        _ => panic!("a key with a pointer is asked by content hash"),
    }
    state.found_indexedlog(a.clone(), plain(&a, b"x"), LocalStoreType::Local);
    assert_eq!(state.pending_count(), 2);
    assert!(!state.pending(&a, FileAttributes::only_content()));
    assert!(state.pending(&c, FileAttributes::only_content()));
}

// ---------------------------------------------------------------------
// Write-back
// ---------------------------------------------------------------------

#[test]
fn memcache_hit_is_written_to_the_indexed_log_cache() {
    let k = key("a", 1);
    let mut store = FileStore::empty();
    store.indexedlog_cache = Some(IndexedLogHgIdDataStore::new());
    let mut memcache = MemcacheStore::new();
    memcache.add_mcdata(plain(&k, b"hot"));
    store.memcache = Some(memcache);
    let mut edenapi = EdenApiFileStore::new();
    edenapi.set_available(false);
    store.edenapi = Some(edenapi);
    let fetched = store.fetch(vec![k.clone()], FileAttributes::only_content());
    assert_eq!(content_of(fetched.complete.get(&k).unwrap()), b"hot".to_vec());
    // The remote API is not asked for what the memory cache delivered.
    assert!(fetched.other_errors().is_empty());
    let cached = store.indexedlog_cache.as_ref().unwrap().get_raw_entry(&k).unwrap().unwrap();
    assert_eq!(cached.content(), &b"hot".to_vec());
}

#[test]
fn remote_hit_fills_the_memory_cache() {
    let k = key("a", 1);
    let mut store = FileStore::empty();
    store.memcache = Some(MemcacheStore::new());
    let mut edenapi = EdenApiFileStore::new();
    edenapi.insert(plain(&k, b"world"));
    store.edenapi = Some(edenapi);
    store.fetch(vec![k.clone()], FileAttributes::only_content());
    let hit = store.memcache.as_ref().unwrap().get_data_iter(&[k.clone()]).unwrap();
    assert_eq!(hit.len(), 1);
    assert_eq!(hit[0].content(), &b"world".to_vec());
}

#[test]
fn caches_are_not_filled_when_switched_off() {
    let k = key("a", 1);
    let mut store = FileStore::empty();
    store.cache_to_local_cache = false;
    store.cache_to_memcache = false;
    store.indexedlog_cache = Some(IndexedLogHgIdDataStore::new());
    store.memcache = Some(MemcacheStore::new());
    let mut edenapi = EdenApiFileStore::new();
    edenapi.insert(plain(&k, b"world"));
    store.edenapi = Some(edenapi);
    let fetched = store.fetch(vec![k.clone()], FileAttributes::only_content());
    assert!(fetched.complete.contains_key(&k));
    assert!(store.indexedlog_cache.as_ref().unwrap().get_raw_entry(&k).unwrap().is_none());
    assert!(store.memcache.as_ref().unwrap().get_data_iter(&[k]).unwrap().is_empty());
}

#[test]
fn a_cache_that_refuses_writes_does_not_fail_the_fetch() {
    let k = key("a", 1);
    let mut store = FileStore::empty();
    let mut cache = IndexedLogHgIdDataStore::new();
    cache.set_writable(false);
    store.indexedlog_cache = Some(cache);
    let mut edenapi = EdenApiFileStore::new();
    edenapi.insert(plain(&k, b"world"));
    store.edenapi = Some(edenapi);
    let fetched = store.fetch(vec![k.clone()], FileAttributes::only_content());
    assert!(fetched.complete.contains_key(&k));
    assert!(fetched.other_errors().is_empty());
    assert!(store.indexedlog_cache.as_ref().unwrap().get_raw_entry(&k).unwrap().is_none());
}

// ---------------------------------------------------------------------
// Legacy fallback
// ---------------------------------------------------------------------

#[test]
fn legacy_store_is_asked_last_and_counted() {
    let hit = key("a", 1);
    let miss = key("b", 2);
    let pointer = key("c", 3);
    let mut store = FileStore::empty();
    store.indexedlog_cache = Some(IndexedLogHgIdDataStore::new());
    let mut legacy = ContentStore::new();
    legacy.add(hit.clone(), b"old".to_vec(), Metadata::empty()).unwrap();
    legacy.add(pointer.clone(), b"ptr".to_vec(), lfs_meta()).unwrap();
    store.contentstore = Some(legacy);
    let fetched = store.fetch(
        vec![hit.clone(), miss.clone(), pointer.clone()],
        FileAttributes::only_content(),
    );
    assert_eq!(content_of(fetched.complete.get(&hit).unwrap()), b"old".to_vec());
    assert!(fetched.incomplete.contains_key(&miss));
    // A pointer from the legacy store is not shown to the caller.
    assert!(fetched.incomplete.contains_key(&pointer));
    let counts = store.fallbacks();
    assert_eq!(counts.fetch_count(), 3);
    assert_eq!(counts.fetch_hit_content_count(), 1);
    assert_eq!(counts.fetch_hit_ptr_count(), 1);
    assert_eq!(counts.fetch_miss_count(), 1);
    assert_eq!(counts.write_ptr_count(), 0);
    // What the legacy store delivered is not written back.
    assert!(store.indexedlog_cache.as_ref().unwrap().get_raw_entry(&hit).unwrap().is_none());
}

#[test]
fn unreachable_legacy_store_is_an_error_of_the_tier() {
    let k = key("a", 1);
    let mut store = FileStore::empty();
    let mut legacy = ContentStore::new();
    legacy.set_available(false);
    store.contentstore = Some(legacy);
    let fetched = store.fetch(vec![k.clone()], FileAttributes::only_content());
    assert_eq!(fetched.other_errors(), &vec![StoreError::Unavailable]);
    assert_eq!(store.fallbacks().fetch_count(), 0);
}

// ---------------------------------------------------------------------
// Writing and flushing
// ---------------------------------------------------------------------

#[test]
fn write_batch_policy_errors() {
    let k = key("a", 1);
    let small = || vec![(key("a", 1), b"x".to_vec(), Metadata::empty())];
    let large = || vec![(key("a", 1), b"xxxx".to_vec(), Metadata::empty())];
    let pointer = || vec![(key("a", 1), b"p".to_vec(), Metadata { size: None, flags: Some(LFS_FLAG) })];

    let mut store = FileStore::empty();
    assert_eq!(store.write_batch(small()).unwrap_err(), StoreError::NoLocalIndexedLog);
    store.lfs_threshold_bytes = Some(2);
    assert_eq!(store.write_batch(large()).unwrap_err(), StoreError::NoLocalLfsStore);
    assert_eq!(store.write_batch(pointer()).unwrap_err(), StoreError::LfsPointerWriteDenied);
    store.allow_writing_lfs_ptrs = true;
    assert_eq!(store.write_batch(pointer()).unwrap_err(), StoreError::NoContentStore);
    assert_eq!(store.fallbacks().write_ptr_count(), 0);
    store.contentstore = Some(ContentStore::new());
    store.write_batch(pointer()).unwrap();
    assert_eq!(store.fallbacks().write_ptr_count(), 1);
    let stored = store.contentstore.as_ref().unwrap().get(&StoreKey::HgId(k)).unwrap();
    assert_eq!(stored, Some(b"p".to_vec()));

    let mut log = IndexedLogHgIdDataStore::new();
    log.set_writable(false);
    store.indexedlog_local = Some(log);
    assert_eq!(store.write_batch(small()).unwrap_err(), StoreError::Unavailable);
}

#[test]
fn write_batch_stops_at_the_first_error() {
    let first = key("a", 1);
    let second = key("b", 2);
    let third = key("c", 3);
    let mut store = FileStore::empty();
    store.lfs_threshold_bytes = Some(2);
    store.indexedlog_local = Some(IndexedLogHgIdDataStore::new());
    let r = store.write_batch(vec![
        (first.clone(), b"1".to_vec(), Metadata::empty()),
        (second.clone(), b"too large".to_vec(), Metadata::empty()),
        (third.clone(), b"3".to_vec(), Metadata::empty()),
    ]);
    assert_eq!(r.unwrap_err(), StoreError::NoLocalLfsStore);
    let log = store.indexedlog_local.as_ref().unwrap();
    assert!(log.get_raw_entry(&first).unwrap().is_some());
    assert!(log.get_raw_entry(&third).unwrap().is_none());
}

#[test]
fn flush_fails_if_any_tier_refuses() {
    let mut store = FileStore::empty();
    assert!(store.flush().is_ok());
    store.indexedlog_local = Some(IndexedLogHgIdDataStore::new());
    store.lfs_cache = Some(LfsStore::new());
    store.aux_cache = Some(IndexedLogHgIdDataStore::new());
    assert!(store.flush().is_ok());
    let mut lfs = LfsStore::new();
    lfs.set_writable(false);
    store.lfs_local = Some(lfs);
    assert_eq!(store.flush().unwrap_err(), vec![(DiskTier::LfsLocal, StoreError::Unavailable)]);
    store.lfs_local.as_mut().unwrap().set_writable(true);
    assert!(store.flush().is_ok());
}

#[test]
fn flush_names_every_tier_that_failed() {
    let refusing = || {
        let mut log = IndexedLogHgIdDataStore::new();
        log.set_writable(false);
        log
    };
    let mut store = FileStore::empty();
    store.indexedlog_local = Some(refusing());
    store.indexedlog_cache = Some(IndexedLogHgIdDataStore::new());
    let mut lfs = LfsStore::new();
    lfs.set_writable(false);
    store.lfs_cache = Some(lfs);
    store.aux_local = Some(IndexedLogHgIdDataStore::new());
    store.aux_cache = Some(refusing());
    assert_eq!(
        store.flush().unwrap_err(),
        vec![
            (DiskTier::IndexedLogLocal, StoreError::Unavailable),
            (DiskTier::LfsCache, StoreError::Unavailable),
            (DiskTier::AuxCache, StoreError::Unavailable),
        ]
    );
}

#[test]
fn local_view_has_no_remote_tiers() {
    let k = key("a", 1);
    let mut store = FileStore::empty();
    store.indexedlog_local = Some(IndexedLogHgIdDataStore::new());
    let mut edenapi = EdenApiFileStore::new();
    edenapi.insert(plain(&k, b"world"));
    store.edenapi = Some(edenapi);
    store.memcache = Some(MemcacheStore::new());
    store.lfs_remote = Some(LfsRemote::new());
    store.contentstore = Some(ContentStore::new());
    let fetched = store.fetch_local(vec![k.clone()], FileAttributes::only_content());
    assert!(fetched.incomplete.contains_key(&k));
    // The remote tiers are still there afterwards.
    assert!(store.edenapi.is_some() && store.memcache.is_some());
    let mut local = store.local();
    assert!(local.edenapi.is_none());
    assert!(local.memcache.is_none());
    assert!(local.lfs_remote.is_none());
    assert!(local.contentstore.is_none());
    assert!(local.indexedlog_local.is_some());
    let fetched = local.fetch(vec![k.clone()], FileAttributes::only_content());
    assert!(fetched.incomplete.contains_key(&k));
}

#[test]
fn shared_mutable_writes_go_to_the_caches() {
    let k = key("a", 1);
    let mut store = FileStore::empty();
    store.indexedlog_local = Some(IndexedLogHgIdDataStore::new());
    store.indexedlog_cache = Some(IndexedLogHgIdDataStore::new());
    let mut shared = store.get_shared_mutable();
    assert!(shared.indexedlog_cache.is_none());
    assert!(!shared.cache_to_local_cache);
    shared.write_batch(vec![(k.clone(), b"x".to_vec(), Metadata::empty())]).unwrap();
    // What was the cache is now the store that is written to.
    assert!(shared.indexedlog_local.as_ref().unwrap().get_raw_entry(&k).unwrap().is_some());
}

#[test]
fn batch_round_trip_among_other_keys() {
    let small = key("dir/small", 1);
    let twice = key("dir/twice", 2);
    let big = key("dir/big", 3);
    let other = key("dir/other", 4);
    let absent = key("dir/absent", 5);
    let mut store = FileStore::empty();
    store.lfs_threshold_bytes = Some(12);
    store.indexedlog_local = Some(IndexedLogHgIdDataStore::new());
    store.indexedlog_cache = Some(log_with(vec![plain(&other, b"cached")]));
    store.lfs_local = Some(LfsStore::new());
    store.lfs_cache = Some(LfsStore::new());
    store
        .write_batch(vec![
            (twice.clone(), b"first".to_vec(), Metadata::empty()),
            (small.clone(), b"\x01\nk: v\n\x01\nabc".to_vec(), Metadata::empty()),
            (big.clone(), b"0123456789abcdef".to_vec(), Metadata::empty()),
            (twice.clone(), b"second".to_vec(), Metadata::empty()),
        ])
        .unwrap();
    let fetched = store.fetch(
        vec![absent.clone(), big.clone(), other.clone(), twice.clone(), small.clone(), big.clone()],
        FileAttributes::only_content(),
    );
    assert_eq!(fetched.complete.len(), 4);
    assert_eq!(fetched.incomplete.len(), 1);
    assert!(fetched.incomplete.contains_key(&absent));
    let file = fetched.complete.get(&small).unwrap();
    assert_eq!(file.content().unwrap().hg_content(), b"\x01\nk: v\n\x01\nabc".to_vec());
    assert_eq!(content_of(file), b"abc".to_vec());
    assert!(file.aux_data().is_none());
    // Of two entries with one key the later one was written.
    assert_eq!(content_of(fetched.complete.get(&twice).unwrap()), b"second".to_vec());
    assert_eq!(content_of(fetched.complete.get(&big).unwrap()), b"0123456789abcdef".to_vec());
    assert_eq!(content_of(fetched.complete.get(&other).unwrap()), b"cached".to_vec());
}

#[test]
fn cache_entry_shadows_a_local_write() {
    // The indexed-log cache is asked before the local indexed log.
    let k = key("dir/file", 1);
    let mut store = FileStore::empty();
    store.indexedlog_local = Some(IndexedLogHgIdDataStore::new());
    store.indexedlog_cache = Some(log_with(vec![plain(&k, b"cached")]));
    store.write_batch(vec![(k.clone(), b"written".to_vec(), Metadata::empty())]).unwrap();
    let fetched = store.fetch(vec![k.clone()], FileAttributes::only_content());
    assert_eq!(content_of(fetched.complete.get(&k).unwrap()), b"cached".to_vec());
}

#[test]
fn read_failure_of_one_key_is_an_error_of_that_key() {
    let broken = key("broken", 1);
    let fine = key("fine", 2);
    let mut log = log_with(vec![plain(&broken, b"b"), plain(&fine, b"f")]);
    log.fail_reads_of(broken.clone());
    assert_eq!(log.get_raw_entry(&broken).unwrap_err(), StoreError::ReadFailed);
    let mut store = FileStore::empty();
    store.indexedlog_local = Some(log);
    let fetched = store.fetch(vec![broken.clone(), fine.clone()], FileAttributes::only_content());
    // The batch goes on: the other key is found.
    assert_eq!(content_of(fetched.complete.get(&fine).unwrap()), b"f".to_vec());
    assert_eq!(fetched.incomplete.get(&broken).unwrap(), &vec![StoreError::ReadFailed]);
    assert!(fetched.other_errors().is_empty());
}

#[test]
fn read_failure_is_dropped_when_a_later_tier_has_the_key() {
    let k = key("p1", 1);
    let mut cache = IndexedLogHgIdDataStore::new();
    cache.fail_reads_of(k.clone());
    let mut store = FileStore::empty();
    store.indexedlog_cache = Some(cache);
    store.indexedlog_local = Some(IndexedLogHgIdDataStore::new());
    store.write_batch(vec![(k.clone(), b"hello".to_vec(), Metadata::empty())]).unwrap();
    let fetched = store.fetch(vec![k.clone()], FileAttributes::only_content());
    assert_eq!(content_of(fetched.complete.get(&k).unwrap()), b"hello".to_vec());
    assert_eq!(fetched.incomplete.len(), 0);
}

#[test]
fn read_failure_in_an_auxiliary_data_log_does_not_end_the_probe() {
    let broken = key("broken", 1);
    let fine = key("fine", 2);
    let aux = FileAuxData { content_sha256: content_sha256(b"f") };
    let mut log = log_with(vec![Entry::new(fine.clone(), aux_to_bytes(&aux), Metadata::empty())]);
    log.fail_reads_of(broken.clone());
    let mut store = FileStore::empty();
    store.aux_local = Some(log);
    let fetched = store.fetch(vec![broken.clone(), fine.clone()], FileAttributes::only_aux());
    assert_eq!(
        fetched.complete.get(&fine).unwrap().aux_data().unwrap().content_sha256.bytes,
        content_sha256(b"f").bytes
    );
    assert_eq!(fetched.incomplete.get(&broken).unwrap(), &vec![StoreError::ReadFailed]);
    assert!(fetched.other_errors().is_empty());
}

#[test]
fn read_failure_of_a_large_file_store_is_an_error_of_the_key() {
    let broken = key("broken", 1);
    let fine = key("fine", 2);
    let mut store = FileStore::empty();
    store.lfs_threshold_bytes = Some(2);
    store.lfs_local = Some(LfsStore::new());
    store
        .write_batch(vec![
            (broken.clone(), b"broken content".to_vec(), Metadata::empty()),
            (fine.clone(), b"fine content".to_vec(), Metadata::empty()),
        ])
        .unwrap();
    store.lfs_local.as_mut().unwrap().fail_reads_of(broken.hgid);
    let lfs = store.lfs_local.as_ref().unwrap();
    assert_eq!(
        lfs.fetch_available(&StoreKey::HgId(broken.clone())).unwrap_err(),
        StoreError::ReadFailed
    );
    let fetched = store.fetch(vec![broken.clone(), fine.clone()], FileAttributes::only_content());
    assert_eq!(content_of(fetched.complete.get(&fine).unwrap()), b"fine content".to_vec());
    assert_eq!(fetched.incomplete.get(&broken).unwrap(), &vec![StoreError::ReadFailed]);
    assert!(fetched.other_errors().is_empty());
}

#[test]
fn read_failure_of_the_legacy_store_is_a_counted_miss_and_an_error_of_the_key() {
    let broken = key("broken", 1);
    let fine = key("fine", 2);
    let mut legacy = ContentStore::new();
    legacy.add(broken.clone(), b"b".to_vec(), Metadata::empty()).unwrap();
    legacy.add(fine.clone(), b"f".to_vec(), Metadata::empty()).unwrap();
    legacy.fail_reads_of(broken.clone());
    assert_eq!(
        legacy.get(&StoreKey::HgId(broken.clone())).unwrap_err(),
        StoreError::ReadFailed
    );
    let mut store = FileStore::empty();
    store.contentstore = Some(legacy);
    let fetched = store.fetch(vec![broken.clone(), fine.clone()], FileAttributes::only_content());
    assert_eq!(content_of(fetched.complete.get(&fine).unwrap()), b"f".to_vec());
    assert_eq!(fetched.incomplete.get(&broken).unwrap(), &vec![StoreError::ReadFailed]);
    assert!(fetched.other_errors().is_empty());
    let counts = store.fallbacks();
    assert_eq!(counts.fetch_count(), 2);
    assert_eq!(counts.fetch_miss_count(), 1);
    assert_eq!(counts.fetch_hit_content_count(), 1);
}
