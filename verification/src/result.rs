//! What a fetch returns, and the ways to read it.

use crate::assoc::{AssocMap, OrdMap};
use crate::error::StoreError;
use crate::file::{StoreFile, StoreFileView};
use crate::keys::{keys_view, Key, KeyView};
use vstd::prelude::*;

verus! {

/// The mathematical value of a [`FileStoreFetch`].
pub struct FileStoreFetchView {
    pub complete: OrdMap<KeyView, StoreFileView>,
    pub incomplete: OrdMap<KeyView, Seq<StoreError>>,
    pub other_errors: Seq<StoreError>,
}

impl FileStoreFetchView {
    /// The errors of the incomplete key at position `i`.
    pub open spec fn errors_at(self, i: int) -> Seq<StoreError> {
        self.incomplete.map[self.incomplete.keys[i]]
    }

    /// Position `i` holds the first incomplete key that has errors.
    pub open spec fn first_failed(self, i: int) -> bool {
        &&& 0 <= i < self.incomplete.keys.len()
        &&& self.errors_at(i).len() > 0
        &&& forall|j: int| 0 <= j < i ==> self.errors_at(j).len() == 0
    }

    /// No incomplete key has errors: each was simply not found.
    pub open spec fn none_failed(self) -> bool {
        forall|j: int| 0 <= j < self.incomplete.keys.len() ==> self.errors_at(j).len() == 0
    }

    /// The errors that are listed for the first `n` incomplete keys: for
    /// each key its errors, or, if it has none, one error that says the key
    /// was not found.
    pub open spec fn key_errors(self, n: int) -> Seq<StoreError>
        decreases n,
    {
        if n <= 0 {
            Seq::empty()
        } else {
            self.key_errors(n - 1) + (if self.errors_at(n - 1).len() > 0 {
                self.errors_at(n - 1)
            } else {
                seq![StoreError::KeyNotFound]
            })
        }
    }

    /// All errors of the result: those of the incomplete keys, then those
    /// of whole tiers.
    pub open spec fn listed_errors(self) -> Seq<StoreError> {
        self.key_errors(self.incomplete.keys.len() as int) + self.other_errors
    }

    /// What `missing` returns: the last error of a whole tier, if there is
    /// one; else the last error of the first incomplete key that has
    /// errors; else the incomplete keys.
    pub open spec fn missing(self, r: Result<Seq<KeyView>, StoreError>) -> bool {
        match r {
            Err(e) => if self.other_errors.len() > 0 {
                e == self.other_errors.last()
            } else {
                exists|i: int| self.first_failed(i) && e == self.errors_at(i).last()
            },
            Ok(keys) => self.other_errors.len() == 0 && self.none_failed() && keys
                == self.incomplete.keys,
        }
    }

    /// What `single` returns: the last error of a whole tier, if there is
    /// one; else, if a key is incomplete, the last error of the first such
    /// key, or `None` if it has no errors; else the file of the complete key
    /// that was added last; else an error, as there is no result at all.
    pub open spec fn single(self, r: Result<Option<StoreFileView>, StoreError>) -> bool {
        if self.other_errors.len() > 0 {
            r == Err::<Option<StoreFileView>, StoreError>(self.other_errors.last())
        } else if self.incomplete.keys.len() > 0 {
            if self.errors_at(0).len() > 0 {
                r == Err::<Option<StoreFileView>, StoreError>(self.errors_at(0).last())
            } else {
                r == Ok::<Option<StoreFileView>, StoreError>(None)
            }
        } else if self.complete.keys.len() > 0 {
            r == Ok::<Option<StoreFileView>, StoreError>(
                Some(self.complete.map[self.complete.keys.last()]),
            )
        } else {
            r == Err::<Option<StoreFileView>, StoreError>(StoreError::NoResults)
        }
    }
}

/// The result of a fetch: the files that were found with everything that
/// was requested, the keys for which something is missing with the errors
/// met for them, and the errors of whole tiers.
pub struct FileStoreFetch {
    pub complete: AssocMap<Key, StoreFile>,
    pub incomplete: AssocMap<Key, Vec<StoreError>>,
    other_errors: Vec<StoreError>,
}

impl View for FileStoreFetch {
    type V = FileStoreFetchView;

    closed spec fn view(&self) -> FileStoreFetchView {
        FileStoreFetchView {
            complete: self.complete@,
            incomplete: self.incomplete@,
            other_errors: self.other_errors@,
        }
    }
}

/// The view of a file that may be there.
pub open spec fn opt_file_view(f: Option<StoreFile>) -> Option<StoreFileView> {
    match f {
        Some(f) => Some(f@),
        None => None,
    }
}

/// The view of the outcome for one key.
pub open spec fn outcome_view(r: Result<Option<StoreFile>, StoreError>) -> Result<
    Option<StoreFileView>,
    StoreError,
> {
    match r {
        Ok(f) => Ok(opt_file_view(f)),
        Err(e) => Err(e),
    }
}

/// `r` is the file `f` found for the key `k`.
pub open spec fn is_found(
    r: Result<(Key, StoreFile), StoreError>,
    k: KeyView,
    f: StoreFileView,
) -> bool {
    match r {
        Ok(p) => p.0@ == k && p.1@ == f,
        Err(_) => false,
    }
}

/// `r` is the error `e`.
pub open spec fn is_failure(r: Result<(Key, StoreFile), StoreError>, e: StoreError) -> bool {
    match r {
        Ok(_) => false,
        Err(x) => x == e,
    }
}

impl FileStoreFetch {
    /// Puts a result together.
    pub fn new(
        complete: AssocMap<Key, StoreFile>,
        incomplete: AssocMap<Key, Vec<StoreError>>,
        other_errors: Vec<StoreError>,
    ) -> (r: Self)
        ensures
            r@ == (FileStoreFetchView {
                complete: complete@,
                incomplete: incomplete@,
                other_errors: other_errors@,
            }),
    {
        FileStoreFetch { complete, incomplete, other_errors }
    }

    /// The files that were found with everything that was requested.
    pub fn complete(&self) -> (r: &AssocMap<Key, StoreFile>)
        ensures
            r@ == self@.complete,
    {
        &self.complete
    }

    /// The keys for which something is missing, with their errors.
    pub fn incomplete(&self) -> (r: &AssocMap<Key, Vec<StoreError>>)
        ensures
            r@ == self@.incomplete,
    {
        &self.incomplete
    }

    /// The errors of whole tiers.
    pub fn other_errors(&self) -> (r: &Vec<StoreError>)
        ensures
            r@ == self@.other_errors,
    {
        &self.other_errors
    }

    /// Return the list of keys which could not be fetched, or any errors
    /// encountered.
    pub fn missing(self) -> (r: Result<Vec<Key>, StoreError>)
        ensures
            self@.missing(
                match r {
                    Ok(keys) => Ok(keys_view(keys@)),
                    Err(e) => Err(e),
                },
            ),
    {
        let mut this = self;
        if let Some(err) = this.other_errors.pop() {
            return Err(err);
        }
        let mut not_found: Vec<Key> = Vec::new();
        let n = this.incomplete.len();
        let mut i: usize = 0;
        while i < n
            invariant
                i <= n,
                n == this.incomplete@.keys.len(),
                this@.incomplete == self@.incomplete,
                this@.other_errors.len() == 0,
                self@.other_errors.len() == 0,
                forall|j: int| 0 <= j < i ==> self@.errors_at(j).len() == 0,
                keys_view(not_found@) == self@.incomplete.keys.subrange(0, i as int),
            decreases n - i,
        {
            let errors = this.incomplete.value_at(i);
            if errors.len() > 0 {
                let err = errors[errors.len() - 1];
                assert(self@.first_failed(i as int));
                return Err(err);
            }
            let ghost before = not_found@;
            not_found.push(this.incomplete.key_at(i).clone());
            assert(keys_view(not_found@) =~= keys_view(before).push(self@.incomplete.keys[i as int]));
            assert(keys_view(not_found@) =~= self@.incomplete.keys.subrange(0, i + 1));
            i += 1;
        }
        assert(self@.incomplete.keys.subrange(0, n as int) =~= self@.incomplete.keys);
        Ok(not_found)
    }

    /// Return the single requested file if found, or any errors encountered.
    pub fn single(self) -> (r: Result<Option<StoreFile>, StoreError>)
        ensures
            self@.single(outcome_view(r)),
    {
        let mut this = self;
        if let Some(err) = this.other_errors.pop() {
            return Err(err);
        }
        if this.incomplete.len() > 0 {
            let errors = this.incomplete.value_at(0);
            if errors.len() > 0 {
                return Err(errors[errors.len() - 1]);
            } else {
                return Ok(None);
            }
        }
        match this.complete.pop() {
            Some((_, file)) => Ok(Some(file)),
            None => Err(StoreError::NoResults),
        }
    }

    /// Returns every outcome, key by key: first the complete keys, each
    /// with its file, then the incomplete keys, each with its last error,
    /// or with `None` where it was simply not found.
    pub fn fetch_results(self) -> (r: Vec<(Key, Result<Option<StoreFile>, StoreError>)>)
        ensures
            r@.len() == self@.complete.keys.len() + self@.incomplete.keys.len(),
            forall|i: int|
                0 <= i < self@.complete.keys.len() ==> (#[trigger] r@[i]).0@
                    == self@.complete.keys[i] && outcome_view(r@[i].1) == Ok::<
                    Option<StoreFileView>,
                    StoreError,
                >(Some(self@.complete.map[self@.complete.keys[i]])),
            forall|i: int|
                0 <= i < self@.incomplete.keys.len() ==> (#[trigger] r@[self@.complete.keys.len()
                    + i]).0@ == self@.incomplete.keys[i] && outcome_view(
                    r@[self@.complete.keys.len() + i].1,
                ) == (if self@.errors_at(i).len() > 0 {
                    Err::<Option<StoreFileView>, StoreError>(self@.errors_at(i).last())
                } else {
                    Ok::<Option<StoreFileView>, StoreError>(None)
                }),
    {
        let mut this = self;
        let mut out: Vec<(Key, Result<Option<StoreFile>, StoreError>)> = Vec::new();
        let nc = this.complete.len();
        let mut i: usize = 0;
        while i < nc
            invariant
                i <= nc,
                nc == self@.complete.keys.len(),
                this@.incomplete == self@.incomplete,
                this@.complete.keys == self@.complete.keys,
                this@.complete.wf(),
                forall|j: int|
                    i <= j < nc ==> this@.complete.map[self@.complete.keys[j]]
                        == self@.complete.map[#[trigger] self@.complete.keys[j]],
                out@.len() == i,
                forall|j: int|
                    0 <= j < i ==> (#[trigger] out@[j]).0@ == self@.complete.keys[j]
                        && outcome_view(out@[j].1) == Ok::<Option<StoreFileView>, StoreError>(
                        Some(self@.complete.map[self@.complete.keys[j]]),
                    ),
            decreases nc - i,
        {
            let key = this.complete.key_at(i).clone();
            let ghost before = this@.complete;
            let taken = this.complete.insert(key.clone(), StoreFile::empty());
            proof {
                assert forall|j: int| i + 1 <= j < nc implies this@.complete.map[self@.complete.keys[j]]
                    == self@.complete.map[#[trigger] self@.complete.keys[j]] by {
                    assert(before.keys[j] != before.keys[i as int]);
                }
            }
            match taken {
                Some(file) => {
                    out.push((key, Ok(Some(file))));
                },
                None => {
                    assert(false);
                },
            }
            i += 1;
        }
        let ni = this.incomplete.len();
        let mut k: usize = 0;
        while k < ni
            invariant
                k <= ni,
                ni == self@.incomplete.keys.len(),
                nc == self@.complete.keys.len(),
                this@.incomplete == self@.incomplete,
                out@.len() == nc + k,
                forall|j: int|
                    0 <= j < nc ==> (#[trigger] out@[j]).0@ == self@.complete.keys[j]
                        && outcome_view(out@[j].1) == Ok::<Option<StoreFileView>, StoreError>(
                        Some(self@.complete.map[self@.complete.keys[j]]),
                    ),
                forall|j: int|
                    0 <= j < k ==> (#[trigger] out@[nc + j]).0@ == self@.incomplete.keys[j]
                        && outcome_view(out@[nc + j].1) == (if self@.errors_at(j).len() > 0 {
                        Err::<Option<StoreFileView>, StoreError>(self@.errors_at(j).last())
                    } else {
                        Ok::<Option<StoreFileView>, StoreError>(None)
                    }),
            decreases ni - k,
        {
            let key = this.incomplete.key_at(k).clone();
            let errors = this.incomplete.value_at(k);
            let outcome: Result<Option<StoreFile>, StoreError> = if errors.len() > 0 {
                Err(errors[errors.len() - 1])
            } else {
                Ok(None)
            };
            out.push((key, outcome));
            k += 1;
        }
        out
    }

    /// Returns all successful fetches and all errors: each complete key
    /// with its file, then, for each incomplete key, its errors, or one
    /// error that says the key was not found, then the errors of whole
    /// tiers.
    pub fn results(self) -> (r: Vec<Result<(Key, StoreFile), StoreError>>)
        ensures
            r@.len() == self@.complete.keys.len() + self@.listed_errors().len(),
            forall|i: int|
                0 <= i < self@.complete.keys.len() ==> is_found(
                    #[trigger] r@[i],
                    self@.complete.keys[i],
                    self@.complete.map[self@.complete.keys[i]],
                ),
            forall|j: int|
                0 <= j < self@.listed_errors().len() ==> is_failure(
                    #[trigger] r@[self@.complete.keys.len() + j],
                    self@.listed_errors()[j],
                ),
    {
        let mut this = self;
        let mut out: Vec<Result<(Key, StoreFile), StoreError>> = Vec::new();
        let nc = this.complete.len();
        let mut i: usize = 0;
        while i < nc
            invariant
                i <= nc,
                nc == self@.complete.keys.len(),
                this@.incomplete == self@.incomplete,
                this@.other_errors == self@.other_errors,
                this@.complete.keys == self@.complete.keys,
                this@.complete.wf(),
                forall|j: int|
                    i <= j < nc ==> this@.complete.map[self@.complete.keys[j]]
                        == self@.complete.map[#[trigger] self@.complete.keys[j]],
                out@.len() == i,
                forall|j: int|
                    0 <= j < i ==> is_found(
                        #[trigger] out@[j],
                        self@.complete.keys[j],
                        self@.complete.map[self@.complete.keys[j]],
                    ),
            decreases nc - i,
        {
            let key = this.complete.key_at(i).clone();
            let ghost before = this@.complete;
            let taken = this.complete.insert(key.clone(), StoreFile::empty());
            proof {
                assert forall|j: int| i + 1 <= j < nc implies this@.complete.map[self@.complete.keys[j]]
                    == self@.complete.map[#[trigger] self@.complete.keys[j]] by {
                    assert(before.keys[j] != before.keys[i as int]);
                }
            }
            match taken {
                Some(file) => {
                    out.push(Ok((key, file)));
                },
                None => {
                    assert(false);
                },
            }
            i += 1;
        }
        let ghost mut errs: Seq<StoreError> = Seq::empty();
        let ni = this.incomplete.len();
        let mut k: usize = 0;
        while k < ni
            invariant
                k <= ni,
                ni == self@.incomplete.keys.len(),
                nc == self@.complete.keys.len(),
                this@.incomplete == self@.incomplete,
                this@.other_errors == self@.other_errors,
                errs == self@.key_errors(k as int),
                out@.len() == nc + errs.len(),
                forall|j: int|
                    0 <= j < nc ==> is_found(
                        #[trigger] out@[j],
                        self@.complete.keys[j],
                        self@.complete.map[self@.complete.keys[j]],
                    ),
                forall|j: int| 0 <= j < errs.len() ==> is_failure(#[trigger] out@[nc + j], errs[j]),
            decreases ni - k,
        {
            let errors = this.incomplete.value_at(k);
            let ghost base = errs;
            if errors.len() > 0 {
                let mut e: usize = 0;
                while e < errors.len()
                    invariant
                        e <= errors@.len(),
                        nc == self@.complete.keys.len(),
                        errs == base + errors@.subrange(0, e as int),
                        out@.len() == nc + errs.len(),
                        forall|j: int|
                            0 <= j < nc ==> is_found(
                                #[trigger] out@[j],
                                self@.complete.keys[j],
                                self@.complete.map[self@.complete.keys[j]],
                            ),
                        forall|j: int|
                            0 <= j < errs.len() ==> is_failure(#[trigger] out@[nc + j], errs[j]),
                    decreases errors@.len() - e,
                {
                    out.push(Err(errors[e]));
                    proof {
                        errs = errs.push(errors@[e as int]);
                        assert(errs =~= base + errors@.subrange(0, e + 1));
                    }
                    e += 1;
                }
                proof {
                    assert(errors@.subrange(0, errors@.len() as int) =~= errors@);
                }
            } else {
                out.push(Err(StoreError::KeyNotFound));
                proof {
                    errs = errs.push(StoreError::KeyNotFound);
                    assert(errs =~= base + seq![StoreError::KeyNotFound]);
                }
            }
            k += 1;
        }
        let no = this.other_errors.len();
        let ghost keyed = errs;
        let mut m: usize = 0;
        while m < no
            invariant
                m <= no,
                no == self@.other_errors.len(),
                this@.other_errors == self@.other_errors,
                nc == self@.complete.keys.len(),
                errs == keyed + self@.other_errors.subrange(0, m as int),
                out@.len() == nc + errs.len(),
                forall|j: int|
                    0 <= j < nc ==> is_found(
                        #[trigger] out@[j],
                        self@.complete.keys[j],
                        self@.complete.map[self@.complete.keys[j]],
                    ),
                forall|j: int| 0 <= j < errs.len() ==> is_failure(#[trigger] out@[nc + j], errs[j]),
            decreases no - m,
        {
            out.push(Err(this.other_errors[m]));
            proof {
                errs = errs.push(self@.other_errors[m as int]);
                assert(errs =~= keyed + self@.other_errors.subrange(0, m + 1));
            }
            m += 1;
        }
        proof {
            assert(self@.other_errors.subrange(0, no as int) =~= self@.other_errors);
            assert(errs == self@.listed_errors());
        }
        out
    }
}

} // verus!
