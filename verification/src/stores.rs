//! The tiers a file store is built from, held in memory.
//!
//! Each tier offers the few operations the fetch orchestrator needs of it,
//! and is viewed as the table it holds. A tier that can refuse service has
//! a switch that says whether it currently does.

use crate::assoc::{lemma_push_contains, AssocMap, KeySet, OrdMap};
use crate::error::StoreError;
use crate::keys::{bytes_clone, lemma_hgid_ext, HgId, Key, KeyView, Sha256};
use crate::types::{
    Entry, EntryView, FileEntry, LfsPointersEntry, LfsStoreEntry, LfsStoreEntryView, McData,
    Metadata, StoreKey, StoreKeyView,
};
use vstd::prelude::*;

verus! {

/// The entries of `table` for `keys`, in the order of `keys`, each filed
/// under the key it was asked by. Keys without an entry are skipped.
pub open spec fn lookup_all(table: Map<KeyView, EntryView>, keys: Seq<KeyView>) -> Seq<EntryView>
    decreases keys.len(),
{
    if keys.len() == 0 {
        Seq::empty()
    } else {
        let rest = lookup_all(table, keys.drop_last());
        let k = keys.last();
        if table.contains_key(k) {
            rest.push(EntryView { key: k, ..table[k] })
        } else {
            rest
        }
    }
}

/// Every entry that `lookup_all` returns is filed under one of the keys.
pub proof fn lemma_lookup_all_keys(table: Map<KeyView, EntryView>, keys: Seq<KeyView>)
    ensures
        forall|i: int|
            0 <= i < lookup_all(table, keys).len() ==> keys.contains(
                #[trigger] lookup_all(table, keys)[i].key,
            ),
    decreases keys.len(),
{
    if keys.len() > 0 {
        let front = keys.drop_last();
        lemma_lookup_all_keys(table, front);
        let r = lookup_all(table, keys);
        assert forall|i: int| 0 <= i < r.len() implies keys.contains(#[trigger] r[i].key) by {
            if i < lookup_all(table, front).len() {
                let k = lookup_all(table, front)[i].key;
                assert(front.contains(k));
                let j = choose|j: int| 0 <= j < front.len() && front[j] == k;
                assert(keys[j] == k);
            } else {
                assert(keys[keys.len() - 1] == keys.last());
            }
        }
    }
}

fn lookup_entries(table: &AssocMap<Key, Entry>, keys: &[Key]) -> (r: Vec<Entry>)
    ensures
        r@.map_values(|e: Entry| e@) == lookup_all(
            table@.map,
            keys@.map_values(|k: Key| k@),
        ),
{
    let ghost all = keys@.map_values(|k: Key| k@);
    let mut out: Vec<Entry> = Vec::new();
    let mut i: usize = 0;
    while i < keys.len()
        invariant
            i <= keys@.len(),
            all == keys@.map_values(|k: Key| k@),
            out@.map_values(|e: Entry| e@) == lookup_all(table@.map, all.subrange(0, i as int)),
        decreases keys@.len() - i,
    {
        proof {
            assert(all.subrange(0, i + 1).drop_last() =~= all.subrange(0, i as int));
            assert(all.subrange(0, i + 1).last() == keys@[i as int]@);
        }
        match table.get(&keys[i]) {
            Some(e) => {
                let ghost before = out@;
                out.push(e.clone().with_key(keys[i].clone()));
                assert(out@.map_values(|e: Entry| e@) =~= before.map_values(|e: Entry| e@).push(
                    out@[out@.len() - 1]@,
                ));
            },
            None => {},
        }
        i += 1;
    }
    proof {
        assert(all.subrange(0, keys@.len() as int) =~= all);
    }
    out
}

// ---------------------------------------------------------------------
// Indexed log
// ---------------------------------------------------------------------
/// The mathematical value of an indexed log.
pub struct IndexedLogView {
    /// What the log holds.
    pub entries: OrdMap<KeyView, EntryView>,
    /// The keys whose entry the log fails to read.
    pub unreadable: Seq<KeyView>,
    /// The log accepts writes.
    pub writable: bool,
}

impl IndexedLogView {
    /// What a lookup of `k` gives: the entry filed under it, if any, or the
    /// failure to read it.
    pub open spec fn read(self, k: KeyView) -> Result<Option<EntryView>, StoreError> {
        if self.unreadable.contains(k) {
            Err(StoreError::ReadFailed)
        } else {
            Ok(self.entries.get(k))
        }
    }

    /// The entry that a lookup of `k` finds: none where nothing is filed
    /// under `k`, and none where reading it fails.
    pub open spec fn found_at(self, k: KeyView) -> Option<EntryView> {
        match self.read(k) {
            Ok(found) => found,
            Err(_) => None,
        }
    }

    /// The log after an attempt to write `entry`: a writable log files it
    /// under its key, a log that is not writable stays as it is.
    pub open spec fn put(self, entry: EntryView) -> IndexedLogView {
        if self.writable {
            IndexedLogView { entries: self.entries.insert(entry.key, entry), ..self }
        } else {
            self
        }
    }
}

/// A log of file entries with an index by key. It serves as a local store,
/// as a shared cache, and, holding encoded auxiliary data, as an
/// auxiliary-data store.
pub struct IndexedLogHgIdDataStore {
    entries: AssocMap<Key, Entry>,
    unreadable: KeySet<Key>,
    writable: bool,
}

impl View for IndexedLogHgIdDataStore {
    type V = IndexedLogView;

    closed spec fn view(&self) -> IndexedLogView {
        IndexedLogView {
            entries: self.entries@,
            unreadable: self.unreadable@,
            writable: self.writable,
        }
    }
}

impl IndexedLogHgIdDataStore {
    /// An empty, writable log.
    pub fn new() -> (r: Self)
        ensures
            r@ == (IndexedLogView {
                entries: OrdMap::empty(),
                unreadable: Seq::empty(),
                writable: true,
            }),
    {
        IndexedLogHgIdDataStore {
            entries: AssocMap::new(),
            unreadable: KeySet::new(),
            writable: true,
        }
    }

    /// Makes every lookup of `key` fail from now on.
    pub fn fail_reads_of(&mut self, key: Key)
        ensures
            final(self)@ == (IndexedLogView {
                unreadable: if old(self)@.unreadable.contains(key@) {
                    old(self)@.unreadable
                } else {
                    old(self)@.unreadable.push(key@)
                },
                ..old(self)@
            }),
            final(self)@.read(key@) == Err::<Option<EntryView>, StoreError>(StoreError::ReadFailed),
    {
        self.unreadable.insert(key);
        proof {
            lemma_push_contains(old(self)@.unreadable, key@);
        }
    }

    /// Makes the log accept or refuse writes and flushes.
    pub fn set_writable(&mut self, writable: bool)
        ensures
            final(self)@ == (IndexedLogView { writable, ..old(self)@ }),
    {
        self.writable = writable;
    }

    /// Looks `key` up: the entry filed under it, if any. Fails where the
    /// log cannot read what it holds for `key`.
    pub fn get_raw_entry(&self, key: &Key) -> (r: Result<Option<Entry>, StoreError>)
        ensures
            match r {
                Ok(Some(e)) => self@.read(key@) == Ok::<Option<EntryView>, StoreError>(Some(e@)),
                Ok(None) => self@.read(key@) == Ok::<Option<EntryView>, StoreError>(None),
                Err(e) => self@.read(key@) == Err::<Option<EntryView>, StoreError>(e),
            },
    {
        if self.unreadable.contains(key) {
            return Err(StoreError::ReadFailed);
        }
        match self.entries.get(key) {
            Some(e) => Ok(Some(e.clone())),
            None => Ok(None),
        }
    }

    /// Files `entry` under its key. Fails, changing nothing, when the log is
    /// not writable.
    pub fn put_entry(&mut self, entry: Entry) -> (r: Result<(), StoreError>)
        ensures
            final(self)@ == old(self)@.put(entry@),
            match r {
                Ok(()) => old(self)@.writable,
                Err(e) => !old(self)@.writable && e == StoreError::Unavailable,
            },
    {
        if !self.writable {
            return Err(StoreError::Unavailable);
        }
        let key = entry.key().clone();
        self.entries.insert(key, entry);
        Ok(())
    }

    /// Makes what was written durable. Fails when the log is not writable.
    pub fn flush_log(&mut self) -> (r: Result<(), StoreError>)
        ensures
            final(self)@ == old(self)@,
            match r {
                Ok(()) => old(self)@.writable,
                Err(e) => !old(self)@.writable && e == StoreError::Unavailable,
            },
    {
        if self.writable {
            Ok(())
        } else {
            Err(StoreError::Unavailable)
        }
    }
}

// ---------------------------------------------------------------------
// Large-file store
// ---------------------------------------------------------------------
/// The revision hash of all zero bytes.
pub open spec fn null_hgid() -> HgId {
    choose|h: HgId| h.bytes@ == Seq::new(20, |i: int| 0u8)
}

/// The mathematical value of a large-file store.
pub struct LfsStoreView {
    /// Pointers, by the revision they stand for.
    pub pointers: OrdMap<HgId, LfsPointersEntry>,
    /// Content, by its hash.
    pub blobs: OrdMap<Sha256, Seq<u8>>,
    /// The revisions for whose keys every lookup fails.
    pub unreadable: Seq<HgId>,
    /// The store accepts writes.
    pub writable: bool,
}

impl LfsStoreView {
    /// What a lookup of `key` gives: what the store knows of it, or the
    /// failure to read it.
    pub open spec fn read(self, key: StoreKeyView) -> Result<Option<LfsStoreEntryView>, StoreError> {
        if key.maybe_key() matches Some(k) && self.unreadable.contains(k.hgid) {
            Err(StoreError::ReadFailed)
        } else {
            Ok(self.fetch_available(key))
        }
    }

    /// What a lookup of `key` finds: nothing where the store knows nothing
    /// of it, and nothing where reading fails.
    pub open spec fn found_at(self, key: StoreKeyView) -> Option<LfsStoreEntryView> {
        match self.read(key) {
            Ok(found) => found,
            Err(_) => None,
        }
    }

    /// What the store knows of `key`.
    ///
    /// Asked by key, it answers with the pointer filed for the revision, and
    /// with the content if it holds content under the pointer's hash. Asked
    /// by content hash, it answers with the content under that hash and a
    /// pointer that describes it.
    pub open spec fn fetch_available(self, key: StoreKeyView) -> Option<LfsStoreEntryView> {
        match key {
            StoreKeyView::HgId(k) => match self.pointers.get(k.hgid) {
                Some(ptr) => match self.blobs.get(ptr.sha256) {
                    Some(blob) => Some(LfsStoreEntryView::PointerAndBlob(ptr, blob)),
                    None => Some(LfsStoreEntryView::PointerOnly(ptr)),
                },
                None => None,
            },
            StoreKeyView::Content(hash, k) => match self.blobs.get(hash) {
                Some(blob) => Some(
                    LfsStoreEntryView::PointerAndBlob(
                        LfsPointersEntry {
                            hgid: match k {
                                Some(k) => k.hgid,
                                None => null_hgid(),
                            },
                            size: blob.len() as u64,
                            sha256: hash,
                        },
                        blob,
                    ),
                ),
                None => None,
            },
        }
    }

    /// The store after an attempt to add `blob` under `hash`.
    pub open spec fn add_blob(self, hash: Sha256, blob: Seq<u8>) -> LfsStoreView {
        if self.writable {
            LfsStoreView { blobs: self.blobs.insert(hash, blob), ..self }
        } else {
            self
        }
    }

    /// The store after an attempt to add `ptr`.
    pub open spec fn add_pointer(self, ptr: LfsPointersEntry) -> LfsStoreView {
        if self.writable {
            LfsStoreView { pointers: self.pointers.insert(ptr.hgid, ptr), ..self }
        } else {
            self
        }
    }
}

/// A store for large files: content filed by its hash, and pointers filed
/// by the revision they stand for.
pub struct LfsStore {
    pointers: AssocMap<HgId, LfsPointersEntry>,
    blobs: AssocMap<Sha256, Vec<u8>>,
    unreadable: KeySet<HgId>,
    writable: bool,
}

impl View for LfsStore {
    type V = LfsStoreView;

    closed spec fn view(&self) -> LfsStoreView {
        LfsStoreView {
            pointers: self.pointers@,
            blobs: self.blobs@,
            unreadable: self.unreadable@,
            writable: self.writable,
        }
    }
}

impl LfsStore {
    /// An empty, writable store.
    pub fn new() -> (r: Self)
        ensures
            r@ == (LfsStoreView {
                pointers: OrdMap::empty(),
                blobs: OrdMap::empty(),
                unreadable: Seq::empty(),
                writable: true,
            }),
    {
        LfsStore {
            pointers: AssocMap::new(),
            blobs: AssocMap::new(),
            unreadable: KeySet::new(),
            writable: true,
        }
    }

    /// Makes every lookup for a key of the revision `hgid` fail from now
    /// on.
    pub fn fail_reads_of(&mut self, hgid: HgId)
        ensures
            final(self)@ == (LfsStoreView {
                unreadable: if old(self)@.unreadable.contains(hgid) {
                    old(self)@.unreadable
                } else {
                    old(self)@.unreadable.push(hgid)
                },
                ..old(self)@
            }),
            final(self)@.unreadable.contains(hgid),
    {
        self.unreadable.insert(hgid);
        proof {
            lemma_push_contains(old(self)@.unreadable, hgid);
        }
    }

    /// Makes the store accept or refuse writes and flushes.
    pub fn set_writable(&mut self, writable: bool)
        ensures
            final(self)@ == (LfsStoreView { writable, ..old(self)@ }),
    {
        self.writable = writable;
    }

    /// Looks `key` up: what the store knows of it, which is nothing, a
    /// pointer, or a pointer and the content it points to. Fails where the
    /// store cannot read what it holds for the key.
    pub fn fetch_available(&self, key: &StoreKey) -> (r: Result<Option<LfsStoreEntry>, StoreError>)
        ensures
            match r {
                Ok(Some(e)) => self@.read(key@) == Ok::<Option<LfsStoreEntryView>, StoreError>(
                    Some(e@),
                ),
                Ok(None) => self@.read(key@) == Ok::<Option<LfsStoreEntryView>, StoreError>(None),
                Err(e) => self@.read(key@) == Err::<Option<LfsStoreEntryView>, StoreError>(e),
            },
    {
        let failing = match key {
            StoreKey::HgId(k) => self.unreadable.contains(&k.hgid),
            StoreKey::Content(_, Some(k)) => self.unreadable.contains(&k.hgid),
            StoreKey::Content(_, None) => false,
        };
        if failing {
            return Err(StoreError::ReadFailed);
        }
        Ok(self.held(key))
    }

    /// What the store holds for `key`.
    fn held(&self, key: &StoreKey) -> (r: Option<LfsStoreEntry>)
        ensures
            match r {
                Some(e) => self@.fetch_available(key@) == Some(e@),
                None => self@.fetch_available(key@) is None,
            },
    {
        match key {
            StoreKey::HgId(k) => match self.pointers.get(&k.hgid) {
                Some(ptr) => match self.blobs.get(&ptr.sha256) {
                    Some(blob) => Some(
                        LfsStoreEntry::PointerAndBlob(*ptr, bytes_clone(blob.as_slice())),
                    ),
                    None => Some(LfsStoreEntry::PointerOnly(*ptr)),
                },
                None => None,
            },
            StoreKey::Content(hash, k) => match self.blobs.get(hash) {
                Some(blob) => {
                    let hgid = match k {
                        Some(k) => k.hgid,
                        None => {
                            let id = HgId::null_id();
                            proof {
                                lemma_hgid_ext(id, null_hgid());
                            }
                            id
                        },
                    };
                    Some(
                        LfsStoreEntry::PointerAndBlob(
                            LfsPointersEntry { hgid, size: blob.len() as u64, sha256: *hash },
                            bytes_clone(blob.as_slice()),
                        ),
                    )
                },
                None => None,
            },
        }
    }

    /// Files `blob` under `hash`. Fails, changing nothing, when the store is
    /// not writable.
    pub fn add_blob(&mut self, hash: &Sha256, blob: Vec<u8>) -> (r: Result<(), StoreError>)
        ensures
            final(self)@ == old(self)@.add_blob(*hash, blob@),
            match r {
                Ok(()) => old(self)@.writable,
                Err(e) => !old(self)@.writable && e == StoreError::Unavailable,
            },
    {
        if !self.writable {
            return Err(StoreError::Unavailable);
        }
        self.blobs.insert(*hash, blob);
        Ok(())
    }

    /// Files `ptr` under its revision. Fails, changing nothing, when the
    /// store is not writable.
    pub fn add_pointer(&mut self, ptr: LfsPointersEntry) -> (r: Result<(), StoreError>)
        ensures
            final(self)@ == old(self)@.add_pointer(ptr),
            match r {
                Ok(()) => old(self)@.writable,
                Err(e) => !old(self)@.writable && e == StoreError::Unavailable,
            },
    {
        if !self.writable {
            return Err(StoreError::Unavailable);
        }
        self.pointers.insert(ptr.hgid, ptr);
        Ok(())
    }

    /// Makes what was written durable. Fails when the store is not
    /// writable.
    pub fn flush(&mut self) -> (r: Result<(), StoreError>)
        ensures
            final(self)@ == old(self)@,
            match r {
                Ok(()) => old(self)@.writable,
                Err(e) => !old(self)@.writable && e == StoreError::Unavailable,
            },
    {
        if self.writable {
            Ok(())
        } else {
            Err(StoreError::Unavailable)
        }
    }
}

// ---------------------------------------------------------------------
// Remote tiers that deliver entries by key
// ---------------------------------------------------------------------
/// The mathematical value of a tier that is asked for a batch of keys and
/// may be out of reach.
pub struct RemoteView {
    pub entries: OrdMap<KeyView, EntryView>,
    pub available: bool,
}

impl RemoteView {
    /// What the tier answers when asked for `keys`.
    pub open spec fn fetch(self, keys: Seq<KeyView>) -> Result<Seq<EntryView>, StoreError> {
        if self.available {
            Ok(lookup_all(self.entries.map, keys))
        } else {
            Err(StoreError::Unavailable)
        }
    }

    /// The tier after it took `entry`.
    pub open spec fn add(self, entry: EntryView) -> RemoteView {
        RemoteView { entries: self.entries.insert(entry.key, entry), ..self }
    }
}

/// The distributed memory cache.
pub struct MemcacheStore {
    entries: AssocMap<Key, McData>,
    available: bool,
}

impl View for MemcacheStore {
    type V = RemoteView;

    closed spec fn view(&self) -> RemoteView {
        RemoteView { entries: self.entries@, available: self.available }
    }
}

impl MemcacheStore {
    /// An empty cache within reach.
    pub fn new() -> (r: Self)
        ensures
            r@ == (RemoteView { entries: OrdMap::empty(), available: true }),
    {
        MemcacheStore { entries: AssocMap::new(), available: true }
    }

    /// Puts the cache within or out of reach.
    pub fn set_available(&mut self, available: bool)
        ensures
            final(self)@ == (RemoteView { available, ..old(self)@ }),
    {
        self.available = available;
    }

    /// The entries the cache holds for `keys`. Fails when the cache is out
    /// of reach.
    pub fn get_data_iter(&self, keys: &[Key]) -> (r: Result<Vec<McData>, StoreError>)
        ensures
            match r {
                Ok(v) => self@.fetch(keys@.map_values(|k: Key| k@)) == Ok::<
                    Seq<EntryView>,
                    StoreError,
                >(v@.map_values(|e: Entry| e@)),
                Err(e) => self@.fetch(keys@.map_values(|k: Key| k@)) == Err::<
                    Seq<EntryView>,
                    StoreError,
                >(e),
            },
    {
        if !self.available {
            return Err(StoreError::Unavailable);
        }
        Ok(lookup_entries(&self.entries, keys))
    }

    /// Hands `entry` to the cache, which files it under its key.
    pub fn add_mcdata(&mut self, entry: McData)
        ensures
            final(self)@ == old(self)@.add(entry@),
    {
        let key = entry.key().clone();
        self.entries.insert(key, entry);
    }
}

/// The remote API that serves file entries.
pub struct EdenApiFileStore {
    entries: AssocMap<Key, FileEntry>,
    available: bool,
}

impl View for EdenApiFileStore {
    type V = RemoteView;

    closed spec fn view(&self) -> RemoteView {
        RemoteView { entries: self.entries@, available: self.available }
    }
}

impl EdenApiFileStore {
    /// A server that holds nothing and is within reach.
    pub fn new() -> (r: Self)
        ensures
            r@ == (RemoteView { entries: OrdMap::empty(), available: true }),
    {
        EdenApiFileStore { entries: AssocMap::new(), available: true }
    }

    /// Puts the server within or out of reach.
    pub fn set_available(&mut self, available: bool)
        ensures
            final(self)@ == (RemoteView { available, ..old(self)@ }),
    {
        self.available = available;
    }

    /// Makes the server hold `entry`, filed under its key.
    pub fn insert(&mut self, entry: FileEntry)
        ensures
            final(self)@ == old(self)@.add(entry@),
    {
        let key = entry.key().clone();
        self.entries.insert(key, entry);
    }

    /// The entries the server holds for `keys`. Fails when the server is
    /// out of reach.
    pub fn files_blocking(&self, keys: Vec<Key>) -> (r: Result<Vec<FileEntry>, StoreError>)
        ensures
            match r {
                Ok(v) => self@.fetch(keys@.map_values(|k: Key| k@)) == Ok::<
                    Seq<EntryView>,
                    StoreError,
                >(v@.map_values(|e: Entry| e@)),
                Err(e) => self@.fetch(keys@.map_values(|k: Key| k@)) == Err::<
                    Seq<EntryView>,
                    StoreError,
                >(e),
            },
    {
        if !self.available {
            return Err(StoreError::Unavailable);
        }
        Ok(lookup_entries(&self.entries, keys.as_slice()))
    }
}

/// The mathematical value of the legacy store: a tier that is asked key
/// by key, may be out of reach, and may fail to read single keys.
pub struct LegacyView {
    /// What the store holds.
    pub entries: OrdMap<KeyView, EntryView>,
    /// The keys whose entry the store fails to read.
    pub unreadable: Seq<KeyView>,
    /// The store is within reach.
    pub available: bool,
}

impl LegacyView {
    /// The entry the store holds for the key inside `key`, if any.
    pub open spec fn lookup(self, key: StoreKeyView) -> Option<EntryView> {
        match key.maybe_key() {
            Some(k) => self.entries.get(k),
            None => None,
        }
    }

    /// What a lookup of `key` gives in a store within reach: the entry it
    /// holds for the key, if any, or the failure to read it.
    pub open spec fn read(self, key: StoreKeyView) -> Result<Option<EntryView>, StoreError> {
        if key.maybe_key() matches Some(k) && self.unreadable.contains(k) {
            Err(StoreError::ReadFailed)
        } else {
            Ok(self.lookup(key))
        }
    }

    /// The store after it took `entry`.
    pub open spec fn add(self, entry: EntryView) -> LegacyView {
        LegacyView { entries: self.entries.insert(entry.key, entry), ..self }
    }
}

/// The legacy store that is asked last.
pub struct ContentStore {
    entries: AssocMap<Key, Entry>,
    unreadable: KeySet<Key>,
    available: bool,
}

impl View for ContentStore {
    type V = LegacyView;

    closed spec fn view(&self) -> LegacyView {
        LegacyView {
            entries: self.entries@,
            unreadable: self.unreadable@,
            available: self.available,
        }
    }
}

impl ContentStore {
    /// A store that holds nothing and is within reach.
    pub fn new() -> (r: Self)
        ensures
            r@ == (LegacyView {
                entries: OrdMap::empty(),
                unreadable: Seq::empty(),
                available: true,
            }),
    {
        ContentStore { entries: AssocMap::new(), unreadable: KeySet::new(), available: true }
    }

    /// Puts the store within or out of reach.
    pub fn set_available(&mut self, available: bool)
        ensures
            final(self)@ == (LegacyView { available, ..old(self)@ }),
    {
        self.available = available;
    }

    /// Makes every lookup of `key` fail from now on.
    pub fn fail_reads_of(&mut self, key: Key)
        ensures
            final(self)@ == (LegacyView {
                unreadable: if old(self)@.unreadable.contains(key@) {
                    old(self)@.unreadable
                } else {
                    old(self)@.unreadable.push(key@)
                },
                ..old(self)@
            }),
            final(self)@.unreadable.contains(key@),
    {
        self.unreadable.insert(key);
        proof {
            lemma_push_contains(old(self)@.unreadable, key@);
        }
    }

    /// Announces the keys that are about to be asked for. Fails when the
    /// store is out of reach.
    pub fn prefetch(&self, _keys: &[StoreKey]) -> (r: Result<(), StoreError>)
        ensures
            match r {
                Ok(()) => self@.available,
                Err(e) => !self@.available && e == StoreError::Unavailable,
            },
    {
        if self.available {
            Ok(())
        } else {
            Err(StoreError::Unavailable)
        }
    }

    /// The entry for the key inside `key`, looked up as both `get` and
    /// `get_meta` do.
    fn find(&self, key: &StoreKey) -> (r: Result<Option<&Entry>, StoreError>)
        ensures
            match r {
                Ok(Some(e)) => self@.available && self@.read(key@) == Ok::<
                    Option<EntryView>,
                    StoreError,
                >(Some(e@)),
                Ok(None) => self@.available && self@.read(key@) == Ok::<
                    Option<EntryView>,
                    StoreError,
                >(None),
                Err(e) => if self@.available {
                    self@.read(key@) == Err::<Option<EntryView>, StoreError>(e)
                } else {
                    e == StoreError::Unavailable
                },
            },
    {
        if !self.available {
            return Err(StoreError::Unavailable);
        }
        let k = match key {
            StoreKey::HgId(k) => Some(k),
            StoreKey::Content(_, Some(k)) => Some(k),
            StoreKey::Content(_, None) => None,
        };
        match k {
            Some(k) => {
                if self.unreadable.contains(k) {
                    return Err(StoreError::ReadFailed);
                }
                match self.entries.get(k) {
                    Some(e) => Ok(Some(e)),
                    None => Ok(None),
                }
            },
            None => Ok(None),
        }
    }

    /// The stored bytes for the key inside `key`, if the store has them.
    /// Fails when the store is out of reach, or cannot read what it holds
    /// for the key.
    pub fn get(&self, key: &StoreKey) -> (r: Result<Option<Vec<u8>>, StoreError>)
        ensures
            match r {
                Ok(Some(bytes)) => self@.available && self@.read(key@) is Ok && self@.lookup(key@)
                    is Some && self@.lookup(key@)->0.content == bytes@,
                Ok(None) => self@.available && self@.read(key@) is Ok && self@.lookup(key@) is None,
                Err(e) => if self@.available {
                    self@.read(key@) == Err::<Option<EntryView>, StoreError>(e)
                } else {
                    e == StoreError::Unavailable
                },
            },
    {
        match self.find(key) {
            Ok(Some(e)) => Ok(Some(bytes_clone(e.content().as_slice()))),
            Ok(None) => Ok(None),
            Err(e) => Err(e),
        }
    }

    /// The stored metadata for the key inside `key`, if the store has it.
    /// Fails when the store is out of reach, or cannot read what it holds
    /// for the key.
    pub fn get_meta(&self, key: &StoreKey) -> (r: Result<Option<Metadata>, StoreError>)
        ensures
            match r {
                Ok(Some(meta)) => self@.available && self@.read(key@) is Ok && self@.lookup(key@)
                    is Some && self@.lookup(key@)->0.metadata == meta,
                Ok(None) => self@.available && self@.read(key@) is Ok && self@.lookup(key@) is None,
                Err(e) => if self@.available {
                    self@.read(key@) == Err::<Option<EntryView>, StoreError>(e)
                } else {
                    e == StoreError::Unavailable
                },
            },
    {
        match self.find(key) {
            Ok(Some(e)) => Ok(Some(*e.metadata())),
            Ok(None) => Ok(None),
            Err(e) => Err(e),
        }
    }

    /// Files `data` with `metadata` under `key`. Fails, changing nothing,
    /// when the store is out of reach.
    pub fn add(&mut self, key: Key, data: Vec<u8>, metadata: Metadata) -> (r: Result<
        (),
        StoreError,
    >)
        ensures
            match r {
                Ok(()) => old(self)@.available && final(self)@ == old(self)@.add(
                    EntryView { key: key@, content: data@, metadata },
                ),
                Err(e) => !old(self)@.available && e == StoreError::Unavailable && final(self)@
                    == old(self)@,
            },
    {
        if !self.available {
            return Err(StoreError::Unavailable);
        }
        let entry = Entry::new(key.clone(), data, metadata);
        self.entries.insert(key, entry);
        Ok(())
    }
}

// ---------------------------------------------------------------------
// Large-file server
// ---------------------------------------------------------------------
/// The content the server holds for the hashes asked, in the order asked.
/// Hashes it holds nothing for are skipped.
pub open spec fn lookup_blobs(table: Map<Sha256, Seq<u8>>, objs: Seq<(Sha256, u64)>) -> Seq<
    (Sha256, Seq<u8>),
>
    decreases objs.len(),
{
    if objs.len() == 0 {
        Seq::empty()
    } else {
        let rest = lookup_blobs(table, objs.drop_last());
        let h = objs.last().0;
        if table.contains_key(h) {
            rest.push((h, table[h]))
        } else {
            rest
        }
    }
}

/// The mathematical value of the large-file server.
pub struct LfsRemoteView {
    pub blobs: OrdMap<Sha256, Seq<u8>>,
    pub available: bool,
}

impl LfsRemoteView {
    /// What the server answers when asked for `objs`.
    pub open spec fn batch_fetch(self, objs: Seq<(Sha256, u64)>) -> Result<
        Seq<(Sha256, Seq<u8>)>,
        StoreError,
    > {
        if self.available {
            Ok(lookup_blobs(self.blobs.map, objs))
        } else {
            Err(StoreError::Unavailable)
        }
    }
}

/// The views of a batch of delivered blobs.
pub open spec fn blobs_view(v: Seq<(Sha256, Vec<u8>)>) -> Seq<(Sha256, Seq<u8>)> {
    v.map_values(|b: (Sha256, Vec<u8>)| (b.0, b.1@))
}

/// The server that holds large-file content by content hash.
pub struct LfsRemote {
    blobs: AssocMap<Sha256, Vec<u8>>,
    available: bool,
}

impl View for LfsRemote {
    type V = LfsRemoteView;

    closed spec fn view(&self) -> LfsRemoteView {
        LfsRemoteView { blobs: self.blobs@, available: self.available }
    }
}

impl LfsRemote {
    /// A server that holds nothing and is within reach.
    pub fn new() -> (r: Self)
        ensures
            r@ == (LfsRemoteView { blobs: OrdMap::empty(), available: true }),
    {
        LfsRemote { blobs: AssocMap::new(), available: true }
    }

    /// Puts the server within or out of reach.
    pub fn set_available(&mut self, available: bool)
        ensures
            final(self)@ == (LfsRemoteView { available, ..old(self)@ }),
    {
        self.available = available;
    }

    /// Makes the server hold `blob` under `hash`.
    pub fn insert(&mut self, hash: Sha256, blob: Vec<u8>)
        ensures
            final(self)@ == (LfsRemoteView {
                blobs: old(self)@.blobs.insert(hash, blob@),
                ..old(self)@
            }),
    {
        self.blobs.insert(hash, blob);
    }

    /// The content the server holds for `objs`, each a hash and a size.
    /// Fails when the server is out of reach.
    pub fn batch_fetch(&self, objs: &[(Sha256, u64)]) -> (r: Result<
        Vec<(Sha256, Vec<u8>)>,
        StoreError,
    >)
        ensures
            match r {
                Ok(v) => self@.batch_fetch(objs@) == Ok::<Seq<(Sha256, Seq<u8>)>, StoreError>(
                    blobs_view(v@),
                ),
                Err(e) => self@.batch_fetch(objs@) == Err::<Seq<(Sha256, Seq<u8>)>, StoreError>(
                    e,
                ),
            },
    {
        if !self.available {
            return Err(StoreError::Unavailable);
        }
        let mut out: Vec<(Sha256, Vec<u8>)> = Vec::new();
        let mut i: usize = 0;
        while i < objs.len()
            invariant
                i <= objs@.len(),
                blobs_view(out@) == lookup_blobs(self.blobs@.map, objs@.subrange(0, i as int)),
            decreases objs@.len() - i,
        {
            proof {
                assert(objs@.subrange(0, i + 1).drop_last() =~= objs@.subrange(0, i as int));
                assert(objs@.subrange(0, i + 1).last() == objs@[i as int]);
            }
            let hash = objs[i].0;
            match self.blobs.get(&hash) {
                Some(blob) => {
                    let ghost before = out@;
                    out.push((hash, bytes_clone(blob.as_slice())));
                    assert(blobs_view(out@) =~= blobs_view(before).push(
                        (hash, out@[out@.len() - 1].1@),
                    ));
                },
                None => {},
            }
            i += 1;
        }
        proof {
            assert(objs@.subrange(0, objs@.len() as int) =~= objs@);
        }
        Ok(out)
    }
}

} // verus!
