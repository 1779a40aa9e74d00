//! A fetched file: its content, as whichever tier delivered it, and its
//! auxiliary data.

use crate::attrs::FileAttributes;
use crate::codec::{content_sha256, file_content_of, sha256_digest, strip_metadata};
use crate::error::StoreError;
use crate::keys::{bytes_clone, HgId, Key, KeyView};
use crate::types::{
    Entry, EntryView, FileAuxData, FileAuxDataView, FileEntry, LfsPointersEntry, McData, Metadata,
};
use core::ops::BitOr;
use vstd::prelude::*;
use vstd::std_specs::convert::FromSpecImpl;
use vstd::std_specs::ops::BitOrSpecImpl;

verus! {

/// The mathematical value of a [`LazyFile`].
pub enum LazyFileView {
    ContentStore(Seq<u8>, Metadata),
    IndexedLog(EntryView),
    Lfs(Seq<u8>, LfsPointersEntry),
    EdenApi(EntryView),
    Memcache(EntryView),
}

impl LazyFileView {
    /// The revision the payload says it belongs to, where it says so.
    pub open spec fn hgid(self) -> Option<HgId> {
        match self {
            LazyFileView::ContentStore(_, _) => None,
            LazyFileView::IndexedLog(e) => Some(e.key.hgid),
            LazyFileView::Lfs(_, p) => Some(p.hgid),
            LazyFileView::EdenApi(e) => Some(e.key.hgid),
            LazyFileView::Memcache(e) => Some(e.key.hgid),
        }
    }

    /// The bytes as the version-control system stores them, copy header
    /// included.
    pub open spec fn hg_content(self) -> Seq<u8> {
        match self {
            LazyFileView::ContentStore(b, _) => b,
            LazyFileView::IndexedLog(e) => e.content,
            LazyFileView::Lfs(b, _) => b,
            LazyFileView::EdenApi(e) => e.content,
            LazyFileView::Memcache(e) => e.content,
        }
    }

    /// The bytes as the working copy sees them. Large-file content is stored
    /// without a copy header; every other payload may carry one.
    pub open spec fn file_content(self) -> Seq<u8> {
        match self {
            LazyFileView::Lfs(b, _) => b,
            _ => file_content_of(self.hg_content()),
        }
    }

    /// The metadata that comes with the payload.
    pub open spec fn metadata(self) -> Metadata {
        match self {
            LazyFileView::ContentStore(_, m) => m,
            LazyFileView::IndexedLog(e) => e.metadata,
            LazyFileView::Lfs(_, p) => Metadata { size: Some(p.size), flags: None },
            LazyFileView::EdenApi(e) => e.metadata,
            LazyFileView::Memcache(e) => e.metadata,
        }
    }

    /// The auxiliary data of this payload: the SHA-256 of the file
    /// content, whichever tier the payload came from.
    pub open spec fn aux_data(self) -> FileAuxDataView {
        FileAuxDataView { content_sha256: sha256_digest(self.file_content()) }
    }

    /// The entry under which the payload may be written to an indexed-log
    /// cache, filed under `key`. Large-file content and what the legacy
    /// store returned are never cached this way.
    pub open spec fn cache_entry(self, key: KeyView) -> Option<EntryView> {
        match self {
            LazyFileView::IndexedLog(e) => Some(EntryView { key, ..e }),
            LazyFileView::EdenApi(e) => Some(EntryView { key, ..e }),
            LazyFileView::Memcache(e) => Some(EntryView { key, ..e }),
            LazyFileView::Lfs(_, _) => None,
            LazyFileView::ContentStore(_, _) => None,
        }
    }
}

/// A file payload, tagged with the tier that delivered it.
#[derive(Debug)]
pub enum LazyFile {
    /// What the legacy store returned: bytes and metadata.
    ContentStore(Vec<u8>, Metadata),
    /// An entry of a local indexed log. The path of the entry's key may
    /// differ from the path that was asked for.
    IndexedLog(Entry),
    /// Content from a large-file tier, with its pointer.
    Lfs(Vec<u8>, LfsPointersEntry),
    /// An entry of a remote API response.
    EdenApi(FileEntry),
    /// An entry of the distributed memory cache.
    Memcache(McData),
}

impl View for LazyFile {
    type V = LazyFileView;

    open spec fn view(&self) -> LazyFileView {
        match self {
            LazyFile::ContentStore(b, m) => LazyFileView::ContentStore(b@, *m),
            LazyFile::IndexedLog(e) => LazyFileView::IndexedLog(e@),
            LazyFile::Lfs(b, p) => LazyFileView::Lfs(b@, *p),
            LazyFile::EdenApi(e) => LazyFileView::EdenApi(e@),
            LazyFile::Memcache(e) => LazyFileView::Memcache(e@),
        }
    }
}

impl Clone for LazyFile {
    fn clone(&self) -> (r: LazyFile)
        ensures
            r@ == self@,
    {
        match self {
            LazyFile::ContentStore(b, m) => LazyFile::ContentStore(bytes_clone(b.as_slice()), *m),
            LazyFile::IndexedLog(e) => LazyFile::IndexedLog(e.clone()),
            LazyFile::Lfs(b, p) => LazyFile::Lfs(bytes_clone(b.as_slice()), *p),
            LazyFile::EdenApi(e) => LazyFile::EdenApi(e.clone()),
            LazyFile::Memcache(e) => LazyFile::Memcache(e.clone()),
        }
    }
}

impl LazyFile {
    /// The revision the payload says it belongs to, where it says so.
    pub fn hgid(&self) -> (r: Option<HgId>)
        ensures
            r == self@.hgid(),
    {
        match self {
            LazyFile::ContentStore(_, _) => None,
            LazyFile::IndexedLog(entry) => Some(entry.key().hgid),
            LazyFile::Lfs(_, ptr) => Some(ptr.hgid()),
            LazyFile::EdenApi(entry) => Some(entry.key().hgid),
            LazyFile::Memcache(entry) => Some(entry.key().hgid),
        }
    }

    /// Computes the auxiliary data of this file from its content.
    pub fn aux_data(&self) -> (r: FileAuxData)
        ensures
            r@ == self@.aux_data(),
    {
        let content = self.file_content();
        FileAuxData { content_sha256: content_sha256(content.as_slice()) }
    }

    /// The file content, as would be found in the working copy (stripped of
    /// its copy header).
    pub fn file_content(&self) -> (r: Vec<u8>)
        ensures
            r@ == self@.file_content(),
    {
        match self {
            LazyFile::IndexedLog(entry) => strip_metadata(entry.content().as_slice()),
            LazyFile::Lfs(blob, _) => bytes_clone(blob.as_slice()),
            LazyFile::ContentStore(blob, _) => strip_metadata(blob.as_slice()),
            LazyFile::EdenApi(entry) => strip_metadata(entry.content().as_slice()),
            LazyFile::Memcache(entry) => strip_metadata(entry.content().as_slice()),
        }
    }

    /// The file content, as the version-control system stores it (with its
    /// copy header).
    pub fn hg_content(&self) -> (r: Vec<u8>)
        ensures
            r@ == self@.hg_content(),
    {
        match self {
            LazyFile::IndexedLog(entry) => bytes_clone(entry.content().as_slice()),
            LazyFile::Lfs(blob, _) => bytes_clone(blob.as_slice()),
            LazyFile::ContentStore(blob, _) => bytes_clone(blob.as_slice()),
            LazyFile::EdenApi(entry) => bytes_clone(entry.content().as_slice()),
            LazyFile::Memcache(entry) => bytes_clone(entry.content().as_slice()),
        }
    }

    /// The metadata that comes with the payload.
    pub fn metadata(&self) -> (r: Metadata)
        ensures
            r == self@.metadata(),
    {
        match self {
            LazyFile::IndexedLog(entry) => *entry.metadata(),
            LazyFile::Lfs(_, ptr) => Metadata { size: Some(ptr.size()), flags: None },
            LazyFile::ContentStore(_, meta) => *meta,
            LazyFile::EdenApi(entry) => *entry.metadata(),
            LazyFile::Memcache(entry) => *entry.metadata(),
        }
    }

    /// Converts the payload to an indexed-log entry filed under `key`, if it
    /// should ever be written to an indexed-log cache.
    pub fn indexedlog_cache_entry(&self, key: Key) -> (r: Option<Entry>)
        ensures
            match r {
                Some(e) => self@.cache_entry(key@) == Some(e@),
                None => self@.cache_entry(key@) is None,
            },
    {
        match self {
            LazyFile::IndexedLog(entry) => Some(entry.clone().with_key(key)),
            LazyFile::EdenApi(entry) => Some(
                Entry::new(key, bytes_clone(entry.content().as_slice()), *entry.metadata()),
            ),
            LazyFile::Memcache(entry) => Some(entry.clone().with_key(key)),
            // Large-file content goes to the large-file cache instead.
            LazyFile::Lfs(_, _) => None,
            // The legacy store does its own caching.
            LazyFile::ContentStore(_, _) => None,
        }
    }
}

/// The mathematical value of a [`StoreFile`].
pub struct StoreFileView {
    pub content: Option<LazyFileView>,
    pub aux_data: Option<FileAuxDataView>,
}

impl StoreFileView {
    /// The file that carries nothing.
    pub open spec fn empty() -> StoreFileView {
        StoreFileView { content: None, aux_data: None }
    }

    /// Which attributes are present.
    pub open spec fn attrs(self) -> FileAttributes {
        FileAttributes { content: self.content is Some, aux_data: self.aux_data is Some }
    }

    /// The file with only the attributes in `attrs`.
    pub open spec fn mask(self, attrs: FileAttributes) -> StoreFileView {
        StoreFileView {
            content: if attrs.content {
                self.content
            } else {
                None
            },
            aux_data: if attrs.aux_data {
                self.aux_data
            } else {
                None
            },
        }
    }

    /// The attribute-wise union of two files; where both carry an
    /// attribute, the left one's value stays.
    pub open spec fn or(self, rhs: StoreFileView) -> StoreFileView {
        StoreFileView {
            content: if self.content is Some {
                self.content
            } else {
                rhs.content
            },
            aux_data: if self.aux_data is Some {
                self.aux_data
            } else {
                rhs.aux_data
            },
        }
    }

    /// The file with its auxiliary data computed from its content, where it
    /// has content.
    pub open spec fn with_computed_aux(self) -> StoreFileView {
        match self.content {
            Some(c) => StoreFileView { aux_data: Some(c.aux_data()), ..self },
            None => self,
        }
    }
}

/// What is known of one file: its content and its auxiliary data, each
/// present or not.
#[derive(Debug)]
pub struct StoreFile {
    pub(crate) content: Option<LazyFile>,
    pub(crate) aux_data: Option<FileAuxData>,
}

impl View for StoreFile {
    type V = StoreFileView;

    closed spec fn view(&self) -> StoreFileView {
        StoreFileView {
            content: match self.content {
                Some(c) => Some(c@),
                None => None,
            },
            aux_data: match self.aux_data {
                Some(a) => Some(a@),
                None => None,
            },
        }
    }
}

impl StoreFile {
    /// A file that carries nothing.
    pub fn empty() -> (r: StoreFile)
        ensures
            r@ == StoreFileView::empty(),
    {
        StoreFile { content: None, aux_data: None }
    }

    /// A file that carries only content.
    pub fn from_content(v: LazyFile) -> (r: StoreFile)
        ensures
            r@ == (StoreFileView { content: Some(v@), aux_data: None }),
    {
        StoreFile { content: Some(v), aux_data: None }
    }

    /// A file that carries only auxiliary data.
    pub fn from_aux_data(v: FileAuxData) -> (r: StoreFile)
        ensures
            r@ == (StoreFileView { content: None, aux_data: Some(v@) }),
    {
        StoreFile { content: None, aux_data: Some(v) }
    }

    /// Returns which attributes are present in this file.
    pub fn attrs(&self) -> (r: FileAttributes)
        ensures
            r == self@.attrs(),
    {
        FileAttributes { content: self.content.is_some(), aux_data: self.aux_data.is_some() }
    }

    /// Returns the file with only the specified subset of attributes.
    pub fn mask(self, attrs: FileAttributes) -> (r: StoreFile)
        ensures
            r@ == self@.mask(attrs),
    {
        StoreFile {
            content: if attrs.content {
                self.content
            } else {
                None
            },
            aux_data: if attrs.aux_data {
                self.aux_data
            } else {
                None
            },
        }
    }

    /// The attribute-wise union with `rhs`, keeping this file's value where
    /// both carry an attribute.
    pub fn or(self, rhs: StoreFile) -> (r: StoreFile)
        ensures
            r@ == self@.or(rhs@),
    {
        StoreFile {
            content: match self.content {
                Some(c) => Some(c),
                None => rhs.content,
            },
            aux_data: match self.aux_data {
                Some(a) => Some(a),
                None => rhs.aux_data,
            },
        }
    }

    /// The auxiliary data, if present.
    pub fn aux_data(&self) -> (r: Option<FileAuxData>)
        ensures
            match r {
                Some(a) => self@.aux_data == Some(a@),
                None => self@.aux_data is None,
            },
    {
        self.aux_data
    }

    /// The content payload, if present.
    pub fn content(&self) -> (r: Option<&LazyFile>)
        ensures
            match r {
                Some(c) => self@.content == Some(c@),
                None => self@.content is None,
            },
    {
        match &self.content {
            Some(c) => Some(c),
            None => None,
        }
    }

    /// Computes the auxiliary data from the content and stores it in the
    /// file. Fails, and changes nothing, when the file has no content.
    pub fn compute_aux_data(&mut self) -> (r: Result<(), StoreError>)
        ensures
            match r {
                Ok(()) => old(self)@.content is Some && final(self)@ == old(self)@.with_computed_aux(),
                Err(e) => old(self)@.content is None && e == StoreError::NoContentForAuxData
                    && final(self)@ == old(self)@,
            },
    {
        match &self.content {
            Some(c) => {
                let aux = c.aux_data();
                self.aux_data = Some(aux);
                Ok(())
            },
            None => Err(StoreError::NoContentForAuxData),
        }
    }

    /// The file content as the working copy sees it. Fails when the file
    /// has no content.
    pub fn file_content(&self) -> (r: Result<Vec<u8>, StoreError>)
        ensures
            match r {
                Ok(bytes) => self@.content matches Some(c) && bytes@ == c.file_content(),
                Err(e) => self@.content is None && e == StoreError::NoContent,
            },
    {
        match &self.content {
            Some(c) => Ok(c.file_content()),
            None => Err(StoreError::NoContent),
        }
    }
}

impl BitOr for StoreFile {
    type Output = StoreFile;

    fn bitor(self, rhs: StoreFile) -> (r: StoreFile)
        ensures
            r@ == self@.or(rhs@),
    {
        StoreFile {
            content: match self.content {
                Some(c) => Some(c),
                None => rhs.content,
            },
            aux_data: match self.aux_data {
                Some(a) => Some(a),
                None => rhs.aux_data,
            },
        }
    }
}

impl BitOrSpecImpl for StoreFile {
    open spec fn obeys_bitor_spec() -> bool {
        true
    }

    open spec fn bitor_req(self, rhs: StoreFile) -> bool {
        true
    }

    closed spec fn bitor_spec(self, rhs: StoreFile) -> StoreFile {
        StoreFile {
            content: match self.content {
                Some(c) => Some(c),
                None => rhs.content,
            },
            aux_data: match self.aux_data {
                Some(a) => Some(a),
                None => rhs.aux_data,
            },
        }
    }
}

impl Default for StoreFile {
    fn default() -> (r: StoreFile)
        ensures
            r@ == StoreFileView::empty(),
    {
        StoreFile { content: None, aux_data: None }
    }
}

impl From<FileAuxData> for StoreFile {
    fn from(v: FileAuxData) -> (r: StoreFile)
        ensures
            r@ == (StoreFileView { content: None, aux_data: Some(v@) }),
    {
        StoreFile { content: None, aux_data: Some(v) }
    }
}

impl FromSpecImpl<FileAuxData> for StoreFile {
    open spec fn obeys_from_spec() -> bool {
        true
    }

    closed spec fn from_spec(v: FileAuxData) -> StoreFile {
        StoreFile { content: None, aux_data: Some(v) }
    }
}

impl From<LazyFile> for StoreFile {
    fn from(v: LazyFile) -> (r: StoreFile)
        ensures
            r@ == (StoreFileView { content: Some(v@), aux_data: None }),
    {
        StoreFile { content: Some(v), aux_data: None }
    }
}

impl FromSpecImpl<LazyFile> for StoreFile {
    open spec fn obeys_from_spec() -> bool {
        true
    }

    closed spec fn from_spec(v: LazyFile) -> StoreFile {
        StoreFile { content: Some(v), aux_data: None }
    }
}

} // verus!
