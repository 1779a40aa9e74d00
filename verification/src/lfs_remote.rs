//! Fetching large files from the server: the content behind every
//! discovered pointer is asked for in one batch, written through to the
//! large-file tier that the pointer came from, and then read back from
//! there.

use crate::assoc::OrdMap;
use crate::error::StoreError;
use crate::keys::{bytes_clone, Sha256};
use crate::model::{lemma_other_error_inv, FetchModel};
use crate::probe::{lemma_fetch_lfs_inv, lemma_same_probe_trans};
use crate::state::FetchState;
use crate::stores::{blobs_view, LfsRemote, LfsRemoteView, LfsStore, LfsStoreView};
use crate::types::LocalStoreType;
use vstd::prelude::*;

verus! {

/// The two large-file tiers, each present or not.
pub struct LfsTiers {
    pub local: Option<LfsStoreView>,
    pub cache: Option<LfsStoreView>,
}

/// The view of a large-file store that may be there.
pub open spec fn opt_lfs_view(store: Option<LfsStore>) -> Option<LfsStoreView> {
    match store {
        Some(s) => Some(s@),
        None => None,
    }
}

/// The store after `blob` was added under `hash`; an error if there is no
/// store or it refuses the write.
pub open spec fn add_blob_opt(store: Option<LfsStoreView>, hash: Sha256, blob: Seq<u8>) -> Result<
    Option<LfsStoreView>,
    StoreError,
> {
    match store {
        Some(s) => if s.writable {
            Ok(Some(s.add_blob(hash, blob)))
        } else {
            Err(StoreError::Unavailable)
        },
        None => Err(StoreError::MissingLfsStore),
    }
}

/// The tiers after the blob the server delivered for `hash` was written to
/// the tier of the kind the pointer to `hash` was found in. It is an error
/// if no pointer to `hash` is known, or if the write fails.
pub open spec fn write_blob(
    origin: OrdMap<Sha256, LocalStoreType>,
    t: LfsTiers,
    hash: Sha256,
    blob: Seq<u8>,
) -> Result<LfsTiers, StoreError> {
    match origin.get(hash) {
        None => Err(StoreError::UnknownPointerSource),
        Some(LocalStoreType::Local) => match add_blob_opt(t.local, hash, blob) {
            Ok(local) => Ok(LfsTiers { local, ..t }),
            Err(e) => Err(e),
        },
        Some(LocalStoreType::Cache) => match add_blob_opt(t.cache, hash, blob) {
            Ok(cache) => Ok(LfsTiers { cache, ..t }),
            Err(e) => Err(e),
        },
    }
}

/// The tiers after the delivered `blobs` were written one after the other,
/// and the error that stopped the writing, if one did.
pub open spec fn write_blobs(
    origin: OrdMap<Sha256, LocalStoreType>,
    t: LfsTiers,
    blobs: Seq<(Sha256, Seq<u8>)>,
) -> (LfsTiers, Option<StoreError>)
    decreases blobs.len(),
{
    if blobs.len() == 0 {
        (t, None)
    } else {
        let (t1, failed) = write_blobs(origin, t, blobs.drop_last());
        if failed is Some {
            (t1, failed)
        } else {
            match write_blob(origin, t1, blobs.last().0, blobs.last().1) {
                Ok(t2) => (t2, None),
                Err(e) => (t1, Some(e)),
            }
        }
    }
}

/// Once a write failed, further blobs change nothing.
proof fn lemma_write_blobs_failed(
    origin: OrdMap<Sha256, LocalStoreType>,
    t: LfsTiers,
    blobs: Seq<(Sha256, Seq<u8>)>,
    i: int,
    n: int,
)
    requires
        0 <= i <= n <= blobs.len(),
        write_blobs(origin, t, blobs.subrange(0, i)).1 is Some,
    ensures
        write_blobs(origin, t, blobs.subrange(0, n)) == write_blobs(origin, t, blobs.subrange(0, i)),
    decreases n - i,
{
    if i < n {
        lemma_write_blobs_failed(origin, t, blobs, i, n - 1);
        assert(blobs.subrange(0, n).drop_last() =~= blobs.subrange(0, n - 1));
    }
}

impl FetchModel {
    /// The error that asking the large-file server ends with: the server
    /// is asked only if a pointer is outstanding, and the step fails if the
    /// server is out of reach or a delivered blob cannot be written.
    pub open spec fn lfs_remote_failure(self, remote: LfsRemoteView, t: LfsTiers) -> Option<
        StoreError,
    > {
        let objs = self.lfs_objects();
        if objs.len() == 0 {
            None
        } else {
            match remote.batch_fetch(objs) {
                Err(e) => Some(e),
                Ok(blobs) => write_blobs(self.pointer_origin, t, blobs).1,
            }
        }
    }

    /// The state and the large-file tiers after the server was asked for
    /// the content behind every discovered pointer.
    ///
    /// With no pointer, nothing happens. If the server is out of reach, or a
    /// delivered blob cannot be written through, that is recorded as an
    /// error of the tier, and what was written before stays written.
    /// Otherwise the large-file tiers are asked again, the cache first, so
    /// that the content is served from them.
    pub open spec fn fetch_lfs_remote(self, remote: LfsRemoteView, t: LfsTiers) -> (
        FetchModel,
        LfsTiers,
    ) {
        let objs = self.lfs_objects();
        if objs.len() == 0 {
            (self, t)
        } else {
            match remote.batch_fetch(objs) {
                Err(e) => (self.other_error(e), t),
                Ok(blobs) => {
                    let (t1, failed) = write_blobs(self.pointer_origin, t, blobs);
                    match failed {
                        Some(e) => (self.other_error(e), t1),
                        None => {
                            let s1 = match t1.cache {
                                Some(c) => self.fetch_lfs(c, LocalStoreType::Cache),
                                None => self,
                            };
                            let s2 = match t1.local {
                                Some(l) => s1.fetch_lfs(l, LocalStoreType::Local),
                                None => s1,
                            };
                            (s2, t1)
                        },
                    }
                },
            }
        }
    }
}

/// Asking the large-file server keeps the invariants and the request, and
/// derives nothing.
pub proof fn lemma_fetch_lfs_remote_inv(s: FetchModel, remote: LfsRemoteView, t: LfsTiers)
    requires
        s.inv(),
    ensures
        s.fetch_lfs_remote(remote, t).0.inv(),
        s.fetch_lfs_remote(remote, t).0.same_probe(s),
{
    let objs = s.lfs_objects();
    if objs.len() > 0 {
        match remote.batch_fetch(objs) {
            Err(e) => {
                lemma_other_error_inv(s, e);
            },
            Ok(blobs) => {
                let (t1, failed) = write_blobs(s.pointer_origin, t, blobs);
                match failed {
                    Some(e) => {
                        lemma_other_error_inv(s, e);
                    },
                    None => {
                        let s1 = match t1.cache {
                            Some(c) => s.fetch_lfs(c, LocalStoreType::Cache),
                            None => s,
                        };
                        if t1.cache is Some {
                            lemma_fetch_lfs_inv(s, t1.cache->0, LocalStoreType::Cache);
                        }
                        if t1.local is Some {
                            lemma_fetch_lfs_inv(s1, t1.local->0, LocalStoreType::Local);
                            lemma_same_probe_trans(
                                s1.fetch_lfs(t1.local->0, LocalStoreType::Local),
                                s1,
                                s,
                            );
                        }
                    },
                }
            },
        }
    }
}

/// Adds `blob` under `hash` to the store. Fails, changing nothing, if there
/// is no store or it refuses the write.
pub fn add_blob_if_some(store: &mut Option<LfsStore>, hash: &Sha256, blob: Vec<u8>) -> (r: Result<
    (),
    StoreError,
>)
    ensures
        match r {
            Ok(()) => add_blob_opt(opt_lfs_view(*old(store)), *hash, blob@) == Ok::<
                Option<LfsStoreView>,
                StoreError,
            >(opt_lfs_view(*final(store))),
            Err(e) => add_blob_opt(opt_lfs_view(*old(store)), *hash, blob@) == Err::<
                Option<LfsStoreView>,
                StoreError,
            >(e) && opt_lfs_view(*final(store)) == opt_lfs_view(*old(store)),
        },
{
    match store.take() {
        Some(mut s) => {
            let r = s.add_blob(hash, blob);
            *store = Some(s);
            r
        },
        None => Err(StoreError::MissingLfsStore),
    }
}

impl FetchState {
    /// Asks the server for the content behind every discovered pointer and
    /// writes it through to the large-file tiers, then asks those tiers
    /// again.
    pub fn fetch_lfs_remote_inner(
        &mut self,
        store: &LfsRemote,
        local: &mut Option<LfsStore>,
        cache: &mut Option<LfsStore>,
    ) -> (r: Result<(), StoreError>)
        ensures
            r is Err == old(self)@.lfs_remote_failure(
                store@,
                LfsTiers { local: opt_lfs_view(*old(local)), cache: opt_lfs_view(*old(cache)) },
            ) is Some,
            r matches Err(e) ==> old(self)@.lfs_remote_failure(
                store@,
                LfsTiers { local: opt_lfs_view(*old(local)), cache: opt_lfs_view(*old(cache)) },
            ) == Some(e),
            match r {
                Ok(()) => (
                    final(self)@,
                    LfsTiers {
                        local: opt_lfs_view(*final(local)),
                        cache: opt_lfs_view(*final(cache)),
                    },
                ) == old(self)@.fetch_lfs_remote(
                    store@,
                    LfsTiers { local: opt_lfs_view(*old(local)), cache: opt_lfs_view(*old(cache)) },
                ),
                Err(e) => final(self)@ == old(self)@ && (
                    old(self)@.other_error(e),
                    LfsTiers {
                        local: opt_lfs_view(*final(local)),
                        cache: opt_lfs_view(*final(cache)),
                    },
                ) == old(self)@.fetch_lfs_remote(
                    store@,
                    LfsTiers { local: opt_lfs_view(*old(local)), cache: opt_lfs_view(*old(cache)) },
                ),
            },
    {
        let pending = self.lfs_objects();
        if pending.is_empty() {
            return Ok(());
        }
        let blobs = match store.batch_fetch(pending.as_slice()) {
            Ok(blobs) => blobs,
            Err(e) => {
                return Err(e);
            },
        };
        let ghost t0 = LfsTiers { local: opt_lfs_view(*local), cache: opt_lfs_view(*cache) };
        let ghost all = blobs_view(blobs@);
        let ghost origin = self@.pointer_origin;
        // Fetch & write to the local large-file stores.
        let n = blobs.len();
        let mut i: usize = 0;
        while i < n
            invariant
                i <= n,
                n == blobs@.len(),
                all == blobs_view(blobs@),
                self@ == old(self)@,
                origin == self@.pointer_origin,
                t0 == (LfsTiers { local: opt_lfs_view(*old(local)), cache: opt_lfs_view(*old(cache)) }),
                old(self)@.lfs_objects().len() > 0,
                store@.batch_fetch(old(self)@.lfs_objects()) == Ok::<
                    Seq<(Sha256, Seq<u8>)>,
                    StoreError,
                >(all),
                write_blobs(origin, t0, all.subrange(0, i as int)) == (
                    LfsTiers { local: opt_lfs_view(*local), cache: opt_lfs_view(*cache) },
                    None::<StoreError>,
                ),
            decreases n - i,
        {
            proof {
                assert(all.subrange(0, i + 1).drop_last() =~= all.subrange(0, i as int));
                assert(all.subrange(0, i + 1).last() == all[i as int]);
                assert(all[i as int] == (blobs@[i as int].0, blobs@[i as int].1@));
            }
            let sha256 = blobs[i].0;
            let data = bytes_clone(blobs[i].1.as_slice());
            let written = match self.pointer_origin_of(&sha256) {
                None => Err(StoreError::UnknownPointerSource),
                Some(LocalStoreType::Local) => add_blob_if_some(local, &sha256, data),
                Some(LocalStoreType::Cache) => add_blob_if_some(cache, &sha256, data),
            };
            match written {
                Ok(()) => {},
                Err(e) => {
                    proof {
                        assert(write_blobs(origin, t0, all.subrange(0, i + 1)) == (
                            LfsTiers { local: opt_lfs_view(*local), cache: opt_lfs_view(*cache) },
                            Some(e),
                        ));
                        lemma_write_blobs_failed(origin, t0, all, i + 1, n as int);
                        assert(all.subrange(0, n as int) =~= all);
                    }
                    return Err(e);
                },
            }
            i += 1;
        }
        proof {
            assert(all.subrange(0, n as int) =~= all);
        }
        // After prefetching into the local large-file stores, retry fetching
        // from them.
        match &*cache {
            Some(lfs_cache) => self.fetch_lfs(lfs_cache, LocalStoreType::Cache),
            None => {},
        }
        match &*local {
            Some(lfs_local) => self.fetch_lfs(lfs_local, LocalStoreType::Local),
            None => {},
        }
        Ok(())
    }

    /// Fetches large files from the server; a failure is recorded as an
    /// error of the tier.
    pub fn fetch_lfs_remote(
        &mut self,
        store: &LfsRemote,
        local: &mut Option<LfsStore>,
        cache: &mut Option<LfsStore>,
    )
        ensures
            (
                final(self)@,
                LfsTiers { local: opt_lfs_view(*final(local)), cache: opt_lfs_view(*final(cache)) },
            ) == old(self)@.fetch_lfs_remote(
                store@,
                LfsTiers { local: opt_lfs_view(*old(local)), cache: opt_lfs_view(*old(cache)) },
            ),
            old(self)@.inv() ==> final(self)@.inv() && final(self)@.same_probe(old(self)@),
    {
        proof {
            if self@.inv() {
                lemma_fetch_lfs_remote_inv(
                    self@,
                    store@,
                    LfsTiers { local: opt_lfs_view(*local), cache: opt_lfs_view(*cache) },
                );
            }
        }
        if let Err(err) = self.fetch_lfs_remote_inner(store, local, cache) {
            self.other_error(err);
        }
    }
}

} // verus!
