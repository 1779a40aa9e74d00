use scmstore::access::{Delta, StoreResult};
use scmstore::attrs::FileAttributes;
use scmstore::codec::content_sha256;
use scmstore::error::StoreError;
use scmstore::keys::{HgId, Key};
use scmstore::store::FileStore;
use scmstore::stores::{EdenApiFileStore, IndexedLogHgIdDataStore, LfsStore};
use scmstore::types::{Entry, LfsPointersEntry, Metadata, StoreKey};

fn a_key(path: &str, id: u8) -> Key {
    Key::new(path.as_bytes().to_vec(), HgId::from_bytes([id; 20]))
}

fn a_store() -> FileStore {
    let mut store = FileStore::empty();
    let mut log = IndexedLogHgIdDataStore::new();
    log.put_entry(Entry::new(
        a_key("a", 1),
        b"\x01\ncopy: x\n\x01\nbody".to_vec(),
        Metadata { size: Some(4), flags: Some(0) },
    ))
    .unwrap();
    store.indexedlog_local = Some(log);
    let mut lfs = LfsStore::new();
    let ptr = LfsPointersEntry::new(HgId::from_bytes([2u8; 20]), 4, content_sha256(b"blob"));
    lfs.add_pointer(ptr).unwrap();
    lfs.add_blob(&ptr.sha256, b"blob".to_vec()).unwrap();
    store.lfs_local = Some(lfs);
    store
}

#[test]
fn fetch_single_found_missing_and_failed() {
    let mut store = a_store();
    let found = store.fetch_single(a_key("a", 1), FileAttributes::only_content()).unwrap();
    assert_eq!(found.unwrap().file_content().unwrap(), b"body".to_vec());
    let none = store.fetch_single(a_key("zz", 9), FileAttributes::only_content()).unwrap();
    assert!(none.is_none());
}

#[test]
fn single_of_an_empty_fetch_has_no_results() {
    let mut store = a_store();
    let fetched = store.fetch(Vec::new(), FileAttributes::only_content());
    assert_eq!(fetched.single().unwrap_err(), StoreError::NoResults);
    let by_hash_only = StoreKey::Content(content_sha256(b"blob"), None);
    assert_eq!(store.get(by_hash_only).unwrap_err(), StoreError::NoResults);
}

#[test]
fn get_file_content_strips_the_copy_header() {
    let mut store = a_store();
    assert_eq!(store.get_file_content(&a_key("a", 1)).unwrap(), Some(b"body".to_vec()));
    assert_eq!(store.get_file_content(&a_key("a", 3)).unwrap(), None);
}

#[test]
fn get_returns_the_stored_bytes() {
    let mut store = a_store();
    match store.get(StoreKey::HgId(a_key("a", 1))).unwrap() {
        StoreResult::Found(bytes) => assert_eq!(bytes, b"\x01\ncopy: x\n\x01\nbody".to_vec()),
        StoreResult::NotFound(_) => panic!("not found"),
    }
    match store.get(StoreKey::HgId(a_key("a", 3))).unwrap() {
        StoreResult::NotFound(StoreKey::HgId(k)) => assert_eq!(k.hgid.bytes, [3u8; 20]),
        _ => panic!("found"),
    }
    match store.blob(StoreKey::HgId(a_key("a", 1))).unwrap() {
        StoreResult::Found(bytes) => assert_eq!(bytes, b"body".to_vec()),
        StoreResult::NotFound(_) => panic!("not found"),
    }
}

#[test]
fn get_meta_and_content_metadata() {
    let mut store = a_store();
    match store.get_meta(StoreKey::HgId(a_key("a", 1))).unwrap() {
        StoreResult::Found(meta) => assert_eq!(meta, Metadata { size: Some(4), flags: Some(0) }),
        StoreResult::NotFound(_) => panic!("not found"),
    }
    // A large file gets its metadata from its pointer.
    match store.get_meta(StoreKey::HgId(a_key("l", 2))).unwrap() {
        StoreResult::Found(meta) => assert_eq!(meta, Metadata { size: Some(4), flags: None }),
        StoreResult::NotFound(_) => panic!("not found"),
    }
    match store.metadata(StoreKey::HgId(a_key("l", 2))).unwrap() {
        StoreResult::Found(m) => {
            assert_eq!(m.size, 4);
            assert_eq!(m.hash.bytes, content_sha256(b"blob").bytes);
        }
        StoreResult::NotFound(_) => panic!("not found"),
    }
    // A small file has no pointer.
    assert!(matches!(
        store.metadata(StoreKey::HgId(a_key("a", 1))).unwrap(),
        StoreResult::NotFound(_)
    ));
}

#[test]
fn prefetch_returns_the_missing_keys() {
    let mut store = a_store();
    let mut remote = EdenApiFileStore::new();
    remote.insert(Entry::new(a_key("r", 7), b"remote".to_vec(), Metadata::empty()));
    store.edenapi = Some(remote);
    let keys = [
        StoreKey::HgId(a_key("a", 1)),
        StoreKey::HgId(a_key("r", 7)),
        StoreKey::HgId(a_key("nowhere", 8)),
    ];
    let locally = store.get_missing(&keys).unwrap();
    assert_eq!(locally.len(), 2);
    let anywhere = store.prefetch(&keys).unwrap();
    assert_eq!(anywhere.len(), 1);
    match &anywhere[0] {
        StoreKey::HgId(k) => assert_eq!(k.path, b"nowhere".to_vec()),
        _ => panic!("a missing key is named by key"),
    }
}

#[test]
fn results_list_files_then_errors() {
    let mut store = a_store();
    let fetched = store.fetch(
        vec![a_key("a", 1), a_key("b", 5)],
        FileAttributes::only_content(),
    );
    let results = fetched.results();
    assert_eq!(results.len(), 2);
    assert_eq!(results[0].as_ref().unwrap().0.path, b"a".to_vec());
    assert_eq!(results[1].as_ref().unwrap_err(), &StoreError::KeyNotFound);
    let fetched = store.fetch(
        vec![a_key("a", 1), a_key("b", 5)],
        FileAttributes::only_content(),
    );
    let outcomes = fetched.fetch_results();
    assert_eq!(outcomes.len(), 2);
    assert!(matches!(outcomes[0].1, Ok(Some(_))));
    assert_eq!(outcomes[1].0.path, b"b".to_vec());
    assert!(matches!(outcomes[1].1, Ok(None)));
    let fetched = store.fetch(vec![a_key("b", 5)], FileAttributes::only_content());
    let missing = fetched.missing().unwrap();
    assert_eq!(missing.len(), 1);
    assert_eq!(missing[0].path, b"b".to_vec());
}

#[test]
fn add_writes_full_texts_only() {
    let mut store = a_store();
    let full = Delta { data: b"new".to_vec(), base: None, key: a_key("n", 4) };
    store.add(&full, &Metadata::empty()).unwrap();
    assert_eq!(store.get_file_content(&a_key("n", 4)).unwrap(), Some(b"new".to_vec()));
    let delta = Delta { data: b"d".to_vec(), base: Some(a_key("n", 4)), key: a_key("m", 5) };
    assert_eq!(
        store.add(&delta, &Metadata::empty()).unwrap_err(),
        StoreError::DeltaBaseUnsupported
    );
    assert_eq!(store.get_file_content(&a_key("m", 5)).unwrap(), None);
    assert!(store.refresh().is_ok());
}
