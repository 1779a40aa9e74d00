//! The errors that fetching and writing can report.

use vstd::prelude::*;

verus! {

/// What went wrong while fetching from or writing to the store.
#[derive(Clone, Copy, Debug, PartialEq, Eq, Structural)]
pub enum StoreError {
    /// An entry was converted to a large-file pointer although it is not
    /// flagged as one.
    NotLfsPointer,
    /// The bytes of an entry flagged as a large-file pointer do not parse
    /// as a pointer.
    MalformedPointer,
    /// The bytes of an auxiliary-data entry do not parse.
    MalformedAuxData,
    /// Content was asked of a file that carries none.
    NoContent,
    /// Auxiliary data was to be computed for a file without content.
    NoContentForAuxData,
    /// The large-file server delivered a blob whose hash nobody asked for.
    UnknownPointerSource,
    /// A blob has to go to a large-file tier that is not configured.
    MissingLfsStore,
    /// A fetch for one key ended with neither a result nor a miss.
    NoResults,
    /// The key was not found in any tier.
    KeyNotFound,
    /// A remote tier could not be reached.
    Unavailable,
    /// A large-file pointer was written directly, which only tests may do.
    LfsPointerWriteDenied,
    /// A large-file pointer was written but no legacy store is configured.
    NoContentStore,
    /// A large file was written but no local large-file store is configured.
    NoLocalLfsStore,
    /// A small file was written but no local indexed log is configured.
    NoLocalIndexedLog,
    /// A delta against a base revision was written; only full texts are
    /// accepted.
    DeltaBaseUnsupported,
    /// A batch request named the same key twice.
    DuplicateKey,
    /// A batch request failed as a whole.
    BatchFailed,
    /// A key could not be built from the caller's path and node.
    InvalidKey,
    /// A tier failed to read what it holds for one key.
    ReadFailed,
}

impl StoreError {
    /// The text of the error.
    pub open spec fn spec_message(self) -> Seq<char> {
        match self {
            StoreError::NotLfsPointer => "failed to convert entry to LFS pointer, is_lfs is false"@,
            StoreError::MalformedPointer => "failed to parse LFS pointer"@,
            StoreError::MalformedAuxData => "failed to parse aux data"@,
            StoreError::NoContent => "no content available"@,
            StoreError::NoContentForAuxData => "failed to compute aux data, no content available"@,
            StoreError::UnknownPointerSource => "no source found for Sha256; received unexpected Sha256 from LFS server"@,
            StoreError::MissingLfsStore => "no LFS store present when handling LFS pointer"@,
            StoreError::NoResults => "no results found in either incomplete or complete"@,
            StoreError::KeyNotFound => "key not found"@,
            StoreError::Unavailable => "remote store unavailable"@,
            StoreError::LfsPointerWriteDenied => "writing LFS pointers directly is not allowed outside of tests"@,
            StoreError::NoContentStore => "trying to write LFS pointer but no ContentStore is available"@,
            StoreError::NoLocalLfsStore => "trying to write LFS file but no local LfsStore is available"@,
            StoreError::NoLocalIndexedLog => "trying to write non-LFS file but no local non-LFS IndexedLog is available"@,
            StoreError::DeltaBaseUnsupported => "Deltas with non-None base are not supported"@,
            StoreError::DuplicateKey => "duplicated keys are not supported when using scmstore"@,
            StoreError::BatchFailed => "batch failed across the entire batch"@,
            StoreError::InvalidKey => "invalid key"@,
            StoreError::ReadFailed => "failed to read the entry of a key"@,
        }
    }

    /// The text of the error.
    pub fn message(&self) -> (r: &'static str)
        ensures
            r@ == self.spec_message(),
    {
        match self {
            StoreError::NotLfsPointer => "failed to convert entry to LFS pointer, is_lfs is false",
            StoreError::MalformedPointer => "failed to parse LFS pointer",
            StoreError::MalformedAuxData => "failed to parse aux data",
            StoreError::NoContent => "no content available",
            StoreError::NoContentForAuxData => "failed to compute aux data, no content available",
            StoreError::UnknownPointerSource => "no source found for Sha256; received unexpected Sha256 from LFS server",
            StoreError::MissingLfsStore => "no LFS store present when handling LFS pointer",
            StoreError::NoResults => "no results found in either incomplete or complete",
            StoreError::KeyNotFound => "key not found",
            StoreError::Unavailable => "remote store unavailable",
            StoreError::LfsPointerWriteDenied => "writing LFS pointers directly is not allowed outside of tests",
            StoreError::NoContentStore => "trying to write LFS pointer but no ContentStore is available",
            StoreError::NoLocalLfsStore => "trying to write LFS file but no local LfsStore is available",
            StoreError::NoLocalIndexedLog => "trying to write non-LFS file but no local non-LFS IndexedLog is available",
            StoreError::DeltaBaseUnsupported => "Deltas with non-None base are not supported",
            StoreError::DuplicateKey => "duplicated keys are not supported when using scmstore",
            StoreError::BatchFailed => "batch failed across the entire batch",
            StoreError::InvalidKey => "invalid key",
            StoreError::ReadFailed => "failed to read the entry of a key",
        }
    }
}

} // verus!
