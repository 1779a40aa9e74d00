use scmstore::backing::{key_from_path_node_slice, BackingScmStores, Resolution};
use scmstore::error::StoreError;
use scmstore::keys::{HgId, Key};
use scmstore::store::FileStore;
use scmstore::stores::{EdenApiFileStore, IndexedLogHgIdDataStore};
use scmstore::tree::TreeStore;
use scmstore::types::{Entry, Metadata};

fn file_key(path: &str, id: u8) -> Key {
    Key::new(path.as_bytes().to_vec(), HgId::from_bytes([id; 20]))
}

fn tree_key(id: u8) -> Key {
    Key::new(Vec::new(), HgId::from_bytes([id; 20]))
}

fn stored(k: &Key, bytes: &[u8]) -> Entry {
    Entry::new(k.clone(), bytes.to_vec(), Metadata::empty())
}

fn answer_at(answers: &[Resolution], index: usize) -> &Result<Option<Vec<u8>>, StoreError> {
    let found: Vec<&Resolution> = answers.iter().filter(|a| a.index == index).collect();
    assert_eq!(found.len(), 1, "each question is answered once");
    &found[0].result
}

fn backing() -> BackingScmStores {
    let a = file_key("a", 1);
    let mut files = FileStore::empty();
    let mut log = IndexedLogHgIdDataStore::new();
    log.put_entry(stored(&a, b"\x01\n\x01\nfile a")).unwrap();
    files.indexedlog_local = Some(log);
    let mut remote = EdenApiFileStore::new();
    remote.insert(stored(&file_key("r", 9), b"remote file"));
    files.edenapi = Some(remote);

    let mut tree_log = IndexedLogHgIdDataStore::new();
    tree_log.put_entry(stored(&tree_key(1), b"tree one")).unwrap();
    let mut tree_remote = EdenApiFileStore::new();
    tree_remote.insert(stored(&tree_key(2), b"tree two"));
    let trees = TreeStore::new(Some(tree_log), Some(IndexedLogHgIdDataStore::new()), None, Some(tree_remote));
    BackingScmStores::new(files, trees)
}

#[test]
fn key_from_path_and_node() {
    let k = key_from_path_node_slice(b"some/path", &[7u8; 20]).unwrap();
    assert_eq!(k.path, b"some/path".to_vec());
    assert_eq!(k.hgid.bytes, [7u8; 20]);
    assert_eq!(
        key_from_path_node_slice(b"p", &[7u8; 19]).unwrap_err(),
        StoreError::InvalidKey
    );
}

#[test]
fn get_blob_reads_file_content() {
    let mut stores = backing();
    assert_eq!(stores.get_blob(b"a", &[1u8; 20], false).unwrap(), Some(b"file a".to_vec()));
    assert_eq!(stores.get_blob(b"a", &[2u8; 20], false).unwrap(), None);
    assert_eq!(stores.get_blob(b"a", &[1u8; 3], false).unwrap_err(), StoreError::InvalidKey);
    // Only with the remote tiers is the remote file found.
    assert_eq!(stores.get_blob(b"r", &[9u8; 20], true).unwrap(), None);
    assert_eq!(
        stores.get_blob(b"r", &[9u8; 20], false).unwrap(),
        Some(b"remote file".to_vec())
    );
}

#[test]
fn get_blob_batch_answers_by_position() {
    let mut stores = backing();
    let questions = vec![
        Ok(file_key("missing", 5)),
        Err(StoreError::InvalidKey),
        Ok(file_key("a", 1)),
        Ok(file_key("missing", 5)),
        Ok(file_key("r", 9)),
    ];
    let answers = stores.get_blob_batch(questions, false);
    assert_eq!(answers.len(), 5);
    assert_eq!(answer_at(&answers, 0), &Ok(None));
    assert_eq!(answer_at(&answers, 1), &Err(StoreError::InvalidKey));
    assert_eq!(answer_at(&answers, 2), &Ok(Some(b"file a".to_vec())));
    assert_eq!(answer_at(&answers, 3), &Err(StoreError::DuplicateKey));
    assert_eq!(answer_at(&answers, 4), &Ok(Some(b"remote file".to_vec())));
}

#[test]
fn get_blob_batch_local_only() {
    let mut stores = backing();
    let questions = vec![Ok(file_key("r", 9)), Ok(file_key("a", 1))];
    let answers = stores.get_blob_batch(questions, true);
    assert_eq!(answer_at(&answers, 0), &Ok(None));
    assert_eq!(answer_at(&answers, 1), &Ok(Some(b"file a".to_vec())));
    assert!(stores.get_blob_batch(Vec::new(), true).is_empty());
}

#[test]
fn get_tree_reads_stored_bytes() {
    let mut stores = backing();
    assert_eq!(stores.get_tree(&[1u8; 20], true).unwrap(), Some(b"tree one".to_vec()));
    assert_eq!(stores.get_tree(&[2u8; 20], true).unwrap(), None);
    assert_eq!(stores.get_tree(&[2u8; 20], false).unwrap(), Some(b"tree two".to_vec()));
    // What the remote API delivered is now in the cache on local disk.
    assert_eq!(stores.get_tree(&[2u8; 20], true).unwrap(), Some(b"tree two".to_vec()));
    assert_eq!(stores.get_tree(&[3u8; 20], false).unwrap(), None);
    assert_eq!(stores.get_tree(&[3u8; 2], false).unwrap_err(), StoreError::InvalidKey);
}

#[test]
fn get_tree_batch_answers_by_position() {
    let mut stores = backing();
    let questions = vec![
        Ok(tree_key(2)),
        Ok(tree_key(1)),
        Err(StoreError::InvalidKey),
        Ok(tree_key(2)),
        Ok(tree_key(4)),
    ];
    let answers = stores.get_tree_batch(questions, false);
    assert_eq!(answers.len(), 5);
    assert_eq!(answer_at(&answers, 0), &Ok(Some(b"tree two".to_vec())));
    assert_eq!(answer_at(&answers, 1), &Ok(Some(b"tree one".to_vec())));
    assert_eq!(answer_at(&answers, 2), &Err(StoreError::InvalidKey));
    assert_eq!(answer_at(&answers, 3), &Err(StoreError::DuplicateKey));
    assert_eq!(answer_at(&answers, 4), &Ok(None));
}

#[test]
fn get_tree_batch_failure_goes_to_every_key() {
    let mut remote = EdenApiFileStore::new();
    remote.set_available(false);
    let trees = TreeStore::new(Some(IndexedLogHgIdDataStore::new()), None, None, Some(remote));
    let mut stores = BackingScmStores::new(FileStore::empty(), trees);
    let questions = vec![Ok(tree_key(1)), Ok(tree_key(2)), Ok(tree_key(3))];
    let answers = stores.get_tree_batch(questions, false);
    assert_eq!(answer_at(&answers, 0), &Err(StoreError::Unavailable));
    assert_eq!(answer_at(&answers, 1), &Err(StoreError::BatchFailed));
    assert_eq!(answer_at(&answers, 2), &Err(StoreError::BatchFailed));
    stores.refresh();
}

#[test]
fn tree_store_fetch_batch() {
    let mut tree_log = IndexedLogHgIdDataStore::new();
    tree_log.put_entry(stored(&tree_key(1), b"tree one")).unwrap();
    let mut trees = TreeStore::new(Some(tree_log), None, None, None);
    let fetched = trees.fetch_batch(vec![tree_key(1), tree_key(2)]).unwrap();
    assert_eq!(fetched.complete.len(), 1);
    assert_eq!(fetched.complete[0].content(), &b"tree one".to_vec());
    assert_eq!(fetched.complete[0].key().hgid.bytes, [1u8; 20]);
    assert_eq!(fetched.incomplete.len(), 1);
    assert_eq!(fetched.incomplete[0].hgid.bytes, [2u8; 20]);
    assert!(trees.refresh().is_ok());
}
