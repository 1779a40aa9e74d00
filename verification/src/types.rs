//! The values that tiers hand to the fetch orchestrator.

use crate::keys::{bytes_clone, HgId, Key, KeyView, Sha256};
use vstd::prelude::*;

verus! {

/// The flag bit that marks an entry as a large-file pointer.
pub const LFS_FLAG: u64 = 0x2000;

/// Size and flags stored beside a file's bytes.
#[derive(Clone, Copy, Debug, PartialEq, Eq, Structural)]
pub struct Metadata {
    pub size: Option<u64>,
    pub flags: Option<u64>,
}

impl Metadata {
    /// Metadata that records nothing.
    pub open spec fn spec_empty() -> Metadata {
        Metadata { size: None, flags: None }
    }

    /// Metadata that records nothing.
    #[verifier::when_used_as_spec(spec_empty)]
    pub fn empty() -> (r: Metadata)
        ensures
            r == Metadata::spec_empty(),
    {
        Metadata { size: None, flags: None }
    }

    /// The flags mark the entry as a large-file pointer.
    pub open spec fn spec_is_lfs(&self) -> bool {
        match self.flags {
            Some(f) => f & LFS_FLAG == LFS_FLAG,
            None => false,
        }
    }

    /// True when the flags mark the entry as a large-file pointer.
    #[verifier::when_used_as_spec(spec_is_lfs)]
    pub fn is_lfs(&self) -> (r: bool)
        ensures
            r == self.spec_is_lfs(),
    {
        match self.flags {
            Some(f) => f & LFS_FLAG == LFS_FLAG,
            None => false,
        }
    }
}

/// Which kind of local tier a value came from.
///
/// A `Local` tier is never evicted and is written only on request; a
/// `Cache` tier may be evicted and may be filled from remote fetches.
#[derive(Clone, Copy, Debug, PartialEq, Eq, Structural)]
pub enum LocalStoreType {
    Local,
    Cache,
}

impl View for LocalStoreType {
    type V = LocalStoreType;

    open spec fn view(&self) -> LocalStoreType {
        *self
    }
}

/// What to do with an entry that is flagged as a large-file pointer.
#[derive(Clone, Copy, Debug, PartialEq, Eq, Structural)]
pub enum ExtStoredPolicy {
    /// Follow the pointer into the large-file tiers.
    Use,
    /// Treat the entry as a miss.
    Ignore,
}

/// The mathematical value of an [`Entry`].
pub struct EntryView {
    pub key: KeyView,
    pub content: Seq<u8>,
    pub metadata: Metadata,
}

/// One stored revision of a file: its key, its bytes as the version-control
/// system encodes them, and its metadata.
#[derive(Debug)]
pub struct Entry {
    key: Key,
    content: Vec<u8>,
    metadata: Metadata,
}

impl View for Entry {
    type V = EntryView;

    closed spec fn view(&self) -> EntryView {
        EntryView { key: self.key@, content: self.content@, metadata: self.metadata }
    }
}

impl Clone for Entry {
    fn clone(&self) -> (r: Entry)
        ensures
            r@ == self@,
    {
        Entry {
            key: self.key.clone(),
            content: bytes_clone(self.content.as_slice()),
            metadata: self.metadata,
        }
    }
}

impl Entry {
    /// An entry for `key` with the stored bytes `content` and `metadata`.
    pub fn new(key: Key, content: Vec<u8>, metadata: Metadata) -> (r: Entry)
        ensures
            r@ == (EntryView { key: key@, content: content@, metadata }),
    {
        Entry { key, content, metadata }
    }

    /// The key the entry was stored under.
    pub fn key(&self) -> (r: &Key)
        ensures
            r@ == self@.key,
    {
        &self.key
    }

    /// The stored bytes.
    pub fn content(&self) -> (r: &Vec<u8>)
        ensures
            r@ == self@.content,
    {
        &self.content
    }

    /// The stored metadata.
    pub fn metadata(&self) -> (r: &Metadata)
        ensures
            *r == self@.metadata,
    {
        &self.metadata
    }

    /// The same entry under another key.
    pub fn with_key(self, key: Key) -> (r: Entry)
        ensures
            r@ == (EntryView { key: key@, ..self@ }),
    {
        Entry { key, content: self.content, metadata: self.metadata }
    }

    /// Takes the entry apart.
    pub fn into_parts(self) -> (r: (Key, Vec<u8>, Metadata))
        ensures
            r.0@ == self@.key,
            r.1@ == self@.content,
            r.2 == self@.metadata,
    {
        (self.key, self.content, self.metadata)
    }
}

/// An entry of the distributed memory cache.
pub type McData = Entry;

/// An entry of a remote API response.
pub type FileEntry = Entry;

/// A large-file pointer: the hash and size of content that is stored by
/// content hash in a large-file tier, standing in for the revision `hgid`.
#[derive(Clone, Copy, Debug)]
pub struct LfsPointersEntry {
    pub hgid: HgId,
    pub size: u64,
    pub sha256: Sha256,
}

impl View for LfsPointersEntry {
    type V = LfsPointersEntry;

    open spec fn view(&self) -> LfsPointersEntry {
        *self
    }
}

impl LfsPointersEntry {
    /// A pointer for the revision `hgid` to content of `size` bytes with the hash
    /// `sha256`.
    pub fn new(hgid: HgId, size: u64, sha256: Sha256) -> (r: LfsPointersEntry)
        ensures
            r == (LfsPointersEntry { hgid, size, sha256 }),
    {
        LfsPointersEntry { hgid, size, sha256 }
    }

    /// The revision the pointer stands for.
    pub fn hgid(&self) -> (r: HgId)
        ensures
            r == self.hgid,
    {
        self.hgid
    }

    /// The size of the content.
    pub fn size(&self) -> (r: u64)
        ensures
            r == self.size,
    {
        self.size
    }

    /// The hash of the content.
    pub fn sha256(&self) -> (r: Sha256)
        ensures
            r == self.sha256,
    {
        self.sha256
    }
}

/// The mathematical value of an [`LfsStoreEntry`].
pub enum LfsStoreEntryView {
    PointerOnly(LfsPointersEntry),
    PointerAndBlob(LfsPointersEntry, Seq<u8>),
}

/// What a large-file tier knows of a key: the pointer alone, or the pointer
/// and the content it points to.
#[derive(Debug)]
pub enum LfsStoreEntry {
    PointerOnly(LfsPointersEntry),
    PointerAndBlob(LfsPointersEntry, Vec<u8>),
}

impl View for LfsStoreEntry {
    type V = LfsStoreEntryView;

    open spec fn view(&self) -> LfsStoreEntryView {
        match self {
            LfsStoreEntry::PointerOnly(p) => LfsStoreEntryView::PointerOnly(*p),
            LfsStoreEntry::PointerAndBlob(p, b) => LfsStoreEntryView::PointerAndBlob(*p, b@),
        }
    }
}

/// The mathematical value of a [`StoreKey`].
pub enum StoreKeyView {
    HgId(KeyView),
    Content(Sha256, Option<KeyView>),
}

impl StoreKeyView {
    /// The key inside, if there is one.
    pub open spec fn maybe_key(self) -> Option<KeyView> {
        match self {
            StoreKeyView::HgId(k) => Some(k),
            StoreKeyView::Content(_, k) => k,
        }
    }
}

/// How a tier that understands both is asked for a file: by key, or by the
/// hash of its content once a pointer has told it.
#[derive(Debug)]
pub enum StoreKey {
    HgId(Key),
    Content(Sha256, Option<Key>),
}

impl View for StoreKey {
    type V = StoreKeyView;

    open spec fn view(&self) -> StoreKeyView {
        match self {
            StoreKey::HgId(k) => StoreKeyView::HgId(k@),
            StoreKey::Content(h, k) => StoreKeyView::Content(
                *h,
                match k {
                    Some(k) => Some(k@),
                    None => None,
                },
            ),
        }
    }
}

/// The views of a sequence of store keys.
pub open spec fn storekeys_view(v: Seq<StoreKey>) -> Seq<StoreKeyView> {
    v.map_values(|k: StoreKey| k@)
}

impl Clone for StoreKey {
    fn clone(&self) -> (r: StoreKey)
        ensures
            r@ == self@,
    {
        match self {
            StoreKey::HgId(k) => StoreKey::HgId(k.clone()),
            StoreKey::Content(h, k) => StoreKey::Content(
                *h,
                match k {
                    Some(k) => Some(k.clone()),
                    None => None,
                },
            ),
        }
    }
}

impl StoreKey {
    /// The key inside, if there is one.
    pub fn maybe_into_key(self) -> (r: Option<Key>)
        ensures
            match r {
                Some(k) => self@.maybe_key() == Some(k@),
                None => self@.maybe_key() is None,
            },
    {
        match self {
            StoreKey::HgId(k) => Some(k),
            StoreKey::Content(_, k) => k,
        }
    }
}

/// Facts about a file that are derived from its content.
#[derive(Clone, Copy, Debug)]
pub struct FileAuxData {
    pub content_sha256: Sha256,
}

/// The mathematical value of [`FileAuxData`]: the bytes of the content
/// hash.
pub struct FileAuxDataView {
    pub content_sha256: Seq<u8>,
}

impl View for FileAuxData {
    type V = FileAuxDataView;

    open spec fn view(&self) -> FileAuxDataView {
        FileAuxDataView { content_sha256: self.content_sha256.bytes@ }
    }
}

} // verus!
