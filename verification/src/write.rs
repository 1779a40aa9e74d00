//! Writing to a file store, and flushing it.

use crate::codec::{
    content_sha256, file_content_of, lemma_pointer_roundtrip, parsed_pointer, pointer_bytes,
    pointer_parses, pointer_to_bytes, sha256_of, strip_metadata,
};
use crate::error::StoreError;
use crate::keys::{bytes_clone, HgId, Key, KeyView};
use crate::lfs_remote::opt_lfs_view;
use crate::state::wrapup::opt_log_view;
use crate::model::{bump, FallbackCounts};
use crate::store::{FileStore, FileStoreView};
use crate::stores::{IndexedLogHgIdDataStore, IndexedLogView, LfsStore, LfsStoreView};
use crate::types::{Entry, EntryView, LfsPointersEntry, Metadata, LFS_FLAG};
use vstd::prelude::*;

verus! {

/// The pointer that stands for the stored bytes `bytes` of the revision
/// `hgid`: it points to the file content, without its copy header.
pub open spec fn lfs_pointer_of(hgid: HgId, bytes: Seq<u8>) -> LfsPointersEntry {
    let blob = file_content_of(bytes);
    LfsPointersEntry { hgid, size: blob.len() as u64, sha256: sha256_of(blob) }
}

/// The entry under which the pointer `ptr` is filed in an indexed log for
/// `key`: the pointer in its stored form, flagged as a large-file pointer.
pub open spec fn pointer_entry(key: KeyView, ptr: LfsPointersEntry) -> EntryView {
    EntryView {
        key,
        content: pointer_bytes(ptr),
        metadata: Metadata { size: None, flags: Some(LFS_FLAG) },
    }
}

/// A pointer entry is flagged as a large-file pointer, and reads back as
/// the pointer it was made of.
pub proof fn lemma_pointer_entry(key: KeyView, ptr: LfsPointersEntry)
    ensures
        pointer_entry(key, ptr).metadata.spec_is_lfs(),
        pointer_parses(pointer_entry(key, ptr).content),
        parsed_pointer(pointer_entry(key, ptr).content, ptr.hgid) == ptr,
{
    assert(LFS_FLAG & LFS_FLAG == LFS_FLAG) by (bit_vector);
    lemma_pointer_roundtrip(ptr);
}

/// Makes the entry under which `ptr` is filed in an indexed log for `key`.
pub fn pointer_entry_of(key: Key, ptr: &LfsPointersEntry) -> (r: Entry)
    ensures
        r@ == pointer_entry(key@, *ptr),
{
    Entry::new(key, pointer_to_bytes(ptr), Metadata { size: None, flags: Some(LFS_FLAG) })
}

/// Splits stored bytes into a large-file pointer and the content it points
/// to.
pub fn lfs_from_hg_file_blob(hgid: HgId, bytes: &[u8]) -> (r: (LfsPointersEntry, Vec<u8>))
    ensures
        r.0 == lfs_pointer_of(hgid, bytes@),
        r.1@ == file_content_of(bytes@),
{
    let blob = strip_metadata(bytes);
    let sha256 = content_sha256(blob.as_slice());
    (LfsPointersEntry { hgid, size: blob.len() as u64, sha256 }, blob)
}

/// The views of a batch of entries to write.
pub open spec fn batch_view(v: Seq<(Key, Vec<u8>, Metadata)>) -> Seq<(KeyView, Seq<u8>, Metadata)> {
    v.map_values(|e: (Key, Vec<u8>, Metadata)| (e.0@, e.1@, e.2))
}

/// The error of a result, if it is one.
pub open spec fn error_of(r: Result<(), StoreError>) -> Option<StoreError> {
    match r {
        Ok(()) => None,
        Err(e) => Some(e),
    }
}

/// A tier on local disk that a flush reaches.
#[derive(Clone, Copy, Debug, PartialEq, Eq, Structural)]
pub enum DiskTier {
    /// The local indexed log.
    IndexedLogLocal,
    /// The indexed-log cache.
    IndexedLogCache,
    /// The local large-file store.
    LfsLocal,
    /// The large-file cache.
    LfsCache,
    /// The local auxiliary-data log.
    AuxLocal,
    /// The auxiliary-data cache.
    AuxCache,
}

/// What flushing the indexed log `log`, the tier `tier`, reports: nothing
/// if it is not configured or accepts writes, else its failure.
pub open spec fn log_failure(log: Option<IndexedLogView>, tier: DiskTier) -> Seq<
    (DiskTier, StoreError),
> {
    match log {
        Some(l) => if l.writable {
            Seq::empty()
        } else {
            seq![(tier, StoreError::Unavailable)]
        },
        None => Seq::empty(),
    }
}

/// What flushing the large-file store `store`, the tier `tier`, reports:
/// nothing if it is not configured or accepts writes, else its failure.
pub open spec fn lfs_failure(store: Option<LfsStoreView>, tier: DiskTier) -> Seq<
    (DiskTier, StoreError),
> {
    match store {
        Some(l) => if l.writable {
            Seq::empty()
        } else {
            seq![(tier, StoreError::Unavailable)]
        },
        None => Seq::empty(),
    }
}

impl FileStoreView {
    /// The stored bytes `bytes` are larger than the large-file threshold.
    pub open spec fn is_large(self, bytes: Seq<u8>) -> bool {
        match self.lfs_threshold_bytes {
            Some(threshold) => bytes.len() as u64 > threshold,
            None => false,
        }
    }

    /// The store after an attempt to write a large-file pointer directly,
    /// and the error the attempt ended with. Only tests may do so, and only
    /// through the legacy store; the attempt is counted once it gets that
    /// far.
    pub open spec fn write_pointer(self, key: KeyView, bytes: Seq<u8>, meta: Metadata) -> (
        FileStoreView,
        Option<StoreError>,
    ) {
        if !self.allow_writing_lfs_ptrs {
            (self, Some(StoreError::LfsPointerWriteDenied))
        } else {
            match self.contentstore {
                None => (self, Some(StoreError::NoContentStore)),
                Some(c) => {
                    let counted = FileStoreView {
                        fallbacks: FallbackCounts {
                            write_ptr: bump(self.fallbacks.write_ptr),
                            ..self.fallbacks
                        },
                        ..self
                    };
                    if c.available {
                        (
                            FileStoreView {
                                contentstore: Some(
                                    c.add(EntryView { key, content: bytes, metadata: meta }),
                                ),
                                ..counted
                            },
                            None,
                        )
                    } else {
                        (counted, Some(StoreError::Unavailable))
                    }
                },
            }
        }
    }

    /// The store after an attempt to write a large file, and the error the
    /// attempt ended with. The content goes to the local large-file store
    /// under its hash, and so does the pointer to it; the pointer is also
    /// filed in the local indexed log, where one is configured, under the
    /// key, as an entry flagged as a large-file pointer. The stored bytes
    /// themselves do not go to the indexed log. If the indexed log refuses
    /// the entry, what the large-file store took stays there.
    pub open spec fn write_large(self, key: KeyView, bytes: Seq<u8>) -> (
        FileStoreView,
        Option<StoreError>,
    ) {
        match self.lfs_local {
            None => (self, Some(StoreError::NoLocalLfsStore)),
            Some(l) => if l.writable {
                let ptr = lfs_pointer_of(key.hgid, bytes);
                let stored = FileStoreView {
                    lfs_local: Some(
                        l.add_blob(ptr.sha256, file_content_of(bytes)).add_pointer(ptr),
                    ),
                    ..self
                };
                match self.indexedlog_local {
                    None => (stored, None),
                    Some(log) => if log.writable {
                        (
                            FileStoreView {
                                indexedlog_local: Some(log.put(pointer_entry(key, ptr))),
                                ..stored
                            },
                            None,
                        )
                    } else {
                        (stored, Some(StoreError::Unavailable))
                    },
                }
            } else {
                (self, Some(StoreError::Unavailable))
            },
        }
    }

    /// The store after an attempt to write a small file, and the error the
    /// attempt ended with: the entry goes to the local indexed log.
    pub open spec fn write_small(self, key: KeyView, bytes: Seq<u8>, meta: Metadata) -> (
        FileStoreView,
        Option<StoreError>,
    ) {
        match self.indexedlog_local {
            None => (self, Some(StoreError::NoLocalIndexedLog)),
            Some(l) => if l.writable {
                (
                    FileStoreView {
                        indexedlog_local: Some(
                            l.put(EntryView { key, content: bytes, metadata: meta }),
                        ),
                        ..self
                    },
                    None,
                )
            } else {
                (self, Some(StoreError::Unavailable))
            },
        }
    }

    /// The store after an attempt to write one entry, and the error the
    /// attempt ended with.
    pub open spec fn write_one(self, key: KeyView, bytes: Seq<u8>, meta: Metadata) -> (
        FileStoreView,
        Option<StoreError>,
    ) {
        if meta.spec_is_lfs() {
            self.write_pointer(key, bytes, meta)
        } else if self.is_large(bytes) {
            self.write_large(key, bytes)
        } else {
            self.write_small(key, bytes, meta)
        }
    }

    /// The store after an attempt to write `entries` one after the other,
    /// and the error that stopped the writing, if one did.
    pub open spec fn write_batch(self, entries: Seq<(KeyView, Seq<u8>, Metadata)>) -> (
        FileStoreView,
        Option<StoreError>,
    )
        decreases entries.len(),
    {
        if entries.len() == 0 {
            (self, None)
        } else {
            let (s, failed) = self.write_batch(entries.drop_last());
            if failed is Some {
                (s, failed)
            } else {
                s.write_one(entries.last().0, entries.last().1, entries.last().2)
            }
        }
    }

    /// The tiers whose flush fails, in the order in which the tiers are
    /// flushed, each with its error.
    pub open spec fn flush_failures(self) -> Seq<(DiskTier, StoreError)> {
        log_failure(self.indexedlog_local, DiskTier::IndexedLogLocal) + log_failure(
            self.indexedlog_cache,
            DiskTier::IndexedLogCache,
        ) + lfs_failure(self.lfs_local, DiskTier::LfsLocal) + lfs_failure(
            self.lfs_cache,
            DiskTier::LfsCache,
        ) + log_failure(self.aux_local, DiskTier::AuxLocal) + log_failure(
            self.aux_cache,
            DiskTier::AuxCache,
        )
    }

    /// Every configured tier on local disk accepts writes.
    pub open spec fn all_writable(self) -> bool {
        &&& self.indexedlog_local matches Some(l) ==> l.writable
        &&& self.indexedlog_cache matches Some(l) ==> l.writable
        &&& self.lfs_local matches Some(l) ==> l.writable
        &&& self.lfs_cache matches Some(l) ==> l.writable
        &&& self.aux_local matches Some(l) ==> l.writable
        &&& self.aux_cache matches Some(l) ==> l.writable
    }
}

/// Once a write failed, further entries change nothing.
proof fn lemma_write_batch_failed(
    s: FileStoreView,
    entries: Seq<(KeyView, Seq<u8>, Metadata)>,
    i: int,
    n: int,
)
    requires
        0 <= i <= n <= entries.len(),
        s.write_batch(entries.subrange(0, i)).1 is Some,
    ensures
        s.write_batch(entries.subrange(0, n)) == s.write_batch(entries.subrange(0, i)),
    decreases n - i,
{
    if i < n {
        lemma_write_batch_failed(s, entries, i, n - 1);
        assert(entries.subrange(0, n).drop_last() =~= entries.subrange(0, n - 1));
    }
}

fn flush_log_into(
    log: &mut Option<IndexedLogHgIdDataStore>,
    tier: DiskTier,
    failures: &mut Vec<(DiskTier, StoreError)>,
)
    ensures
        opt_log_view(*final(log)) == opt_log_view(*old(log)),
        final(failures)@ == old(failures)@ + log_failure(opt_log_view(*old(log)), tier),
{
    let ghost before = failures@;
    if let Err(error) = flush_log_if_some(log) {
        failures.push((tier, error));
        assert(failures@ =~= before + seq![(tier, StoreError::Unavailable)]);
    } else {
        assert(failures@ =~= before + Seq::<(DiskTier, StoreError)>::empty());
    }
}

fn flush_lfs_into(
    store: &mut Option<LfsStore>,
    tier: DiskTier,
    failures: &mut Vec<(DiskTier, StoreError)>,
)
    ensures
        opt_lfs_view(*final(store)) == opt_lfs_view(*old(store)),
        final(failures)@ == old(failures)@ + lfs_failure(opt_lfs_view(*old(store)), tier),
{
    let ghost before = failures@;
    if let Err(error) = flush_lfs_if_some(store) {
        failures.push((tier, error));
        assert(failures@ =~= before + seq![(tier, StoreError::Unavailable)]);
    } else {
        assert(failures@ =~= before + Seq::<(DiskTier, StoreError)>::empty());
    }
}

fn flush_log_if_some(log: &mut Option<IndexedLogHgIdDataStore>) -> (r: Result<(), StoreError>)
    ensures
        opt_log_view(*final(log)) == opt_log_view(*old(log)),
        match r {
            Ok(()) => opt_log_view(*old(log)) matches Some(l) ==> l.writable,
            Err(e) => e == StoreError::Unavailable && (opt_log_view(*old(log)) matches Some(l)
                && !l.writable),
        },
{
    match log {
        Some(l) => l.flush_log(),
        None => Ok(()),
    }
}

fn flush_lfs_if_some(store: &mut Option<LfsStore>) -> (r: Result<(), StoreError>)
    ensures
        opt_lfs_view(*final(store)) == opt_lfs_view(*old(store)),
        match r {
            Ok(()) => opt_lfs_view(*old(store)) matches Some(l) ==> l.writable,
            Err(e) => e == StoreError::Unavailable && (opt_lfs_view(*old(store)) matches Some(l)
                && !l.writable),
        },
{
    match store {
        Some(l) => l.flush(),
        None => Ok(()),
    }
}

impl FileStore {
    fn write_pointer(&mut self, key: Key, bytes: Vec<u8>, meta: Metadata) -> (r: Result<
        (),
        StoreError,
    >)
        ensures
            (final(self)@, error_of(r)) == old(self)@.write_pointer(key@, bytes@, meta),
    {
        if !self.allow_writing_lfs_ptrs {
            return Err(StoreError::LfsPointerWriteDenied);
        }
        match self.contentstore.take() {
            None => Err(StoreError::NoContentStore),
            Some(mut contentstore) => {
                self.fallbacks.write_ptr(&key);
                let r = contentstore.add(key, bytes, meta);
                self.contentstore = Some(contentstore);
                r
            },
        }
    }

    fn write_large(&mut self, key: Key, bytes: Vec<u8>) -> (r: Result<(), StoreError>)
        ensures
            (final(self)@, error_of(r)) == old(self)@.write_large(key@, bytes@),
    {
        let (lfs_pointer, lfs_blob) = lfs_from_hg_file_blob(key.hgid, bytes.as_slice());
        match self.lfs_local.take() {
            None => {
                return Err(StoreError::NoLocalLfsStore);
            },
            Some(mut lfs_local) => {
                let sha256 = lfs_pointer.sha256();
                let r = match lfs_local.add_blob(&sha256, lfs_blob) {
                    Ok(()) => lfs_local.add_pointer(lfs_pointer),
                    Err(e) => Err(e),
                };
                self.lfs_local = Some(lfs_local);
                if let Err(e) = r {
                    return Err(e);
                }
            },
        }
        match self.indexedlog_local.take() {
            None => Ok(()),
            Some(mut indexedlog_local) => {
                let r = indexedlog_local.put_entry(pointer_entry_of(key, &lfs_pointer));
                self.indexedlog_local = Some(indexedlog_local);
                r
            },
        }
    }

    fn write_small(&mut self, key: Key, bytes: Vec<u8>, meta: Metadata) -> (r: Result<
        (),
        StoreError,
    >)
        ensures
            (final(self)@, error_of(r)) == old(self)@.write_small(key@, bytes@, meta),
    {
        match self.indexedlog_local.take() {
            None => Err(StoreError::NoLocalIndexedLog),
            Some(mut indexedlog_local) => {
                let r = indexedlog_local.put_entry(Entry::new(key, bytes, meta));
                self.indexedlog_local = Some(indexedlog_local);
                r
            },
        }
    }

    /// Writes `entries`, each a key, its stored bytes and its metadata, one
    /// after the other, and stops at the first that fails.
    ///
    /// An entry flagged as a large-file pointer goes to the legacy store,
    /// which only tests may ask for. An entry larger than the large-file
    /// threshold is split into pointer and content: both go to the local
    /// large-file store, and the pointer is also filed, as a flagged entry,
    /// in the local indexed log where one is configured. Every other entry
    /// goes to the local indexed log as it is.
    pub fn write_batch(&mut self, entries: Vec<(Key, Vec<u8>, Metadata)>) -> (r: Result<
        (),
        StoreError,
    >)
        ensures
            (final(self)@, error_of(r)) == old(self)@.write_batch(batch_view(entries@)),
    {
        let ghost all = batch_view(entries@);
        let ghost start = self@;
        let n = entries.len();
        let mut i: usize = 0;
        while i < n
            invariant
                i <= n,
                n == entries@.len(),
                all == batch_view(entries@),
                start == old(self)@,
                start.write_batch(all.subrange(0, i as int)) == (self@, None::<StoreError>),
            decreases n - i,
        {
            proof {
                assert(all.subrange(0, i + 1).drop_last() =~= all.subrange(0, i as int));
                assert(all.subrange(0, i + 1).last() == all[i as int]);
                assert(all[i as int] == (entries@[i as int].0@, entries@[i as int].1@, entries@[i as int].2));
            }
            let key = entries[i].0.clone();
            let bytes = bytes_clone(entries[i].1.as_slice());
            let meta = entries[i].2;
            let written = if meta.is_lfs() {
                self.write_pointer(key, bytes, meta)
            } else {
                let hg_blob_len = bytes.len() as u64;
                // Default to non-LFS if no LFS threshold is set.
                let large = match self.lfs_threshold_bytes {
                    Some(threshold) => hg_blob_len > threshold,
                    None => false,
                };
                if large {
                    self.write_large(key, bytes)
                } else {
                    self.write_small(key, bytes, meta)
                }
            };
            match written {
                Ok(()) => {},
                Err(e) => {
                    proof {
                        assert(start.write_batch(all.subrange(0, i + 1)) == (self@, Some(e)));
                        lemma_write_batch_failed(start, all, i + 1, n as int);
                        assert(all.subrange(0, n as int) =~= all);
                    }
                    return Err(e);
                },
            }
            i += 1;
        }
        proof {
            assert(all.subrange(0, n as int) =~= all);
        }
        Ok(())
    }

    /// Flushes every configured tier on local disk. Every tier is flushed
    /// even if one before it failed. The call fails if any of them did, and
    /// then names each tier that failed, in the order in which the tiers
    /// are flushed, with its error.
    pub fn flush(&mut self) -> (r: Result<(), Vec<(DiskTier, StoreError)>>)
        ensures
            final(self)@ == old(self)@,
            r is Ok <==> old(self)@.all_writable(),
            r is Ok <==> old(self)@.flush_failures().len() == 0,
            r matches Err(failures) ==> failures@ == old(self)@.flush_failures(),
    {
        let ghost v = self@;
        let mut failures: Vec<(DiskTier, StoreError)> = Vec::new();
        flush_log_into(&mut self.indexedlog_local, DiskTier::IndexedLogLocal, &mut failures);
        flush_log_into(&mut self.indexedlog_cache, DiskTier::IndexedLogCache, &mut failures);
        flush_lfs_into(&mut self.lfs_local, DiskTier::LfsLocal, &mut failures);
        flush_lfs_into(&mut self.lfs_cache, DiskTier::LfsCache, &mut failures);
        flush_log_into(&mut self.aux_local, DiskTier::AuxLocal, &mut failures);
        flush_log_into(&mut self.aux_cache, DiskTier::AuxCache, &mut failures);
        proof {
            let first = log_failure(v.indexedlog_local, DiskTier::IndexedLogLocal);
            assert(Seq::<(DiskTier, StoreError)>::empty() + first =~= first);
            assert(failures@ == v.flush_failures());
        }
        if failures.is_empty() {
            Ok(())
        } else {
            Err(failures)
        }
    }
}

} // verus!
