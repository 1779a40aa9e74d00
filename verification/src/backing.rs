//! The stores as a backing store for a virtual file system asks them: by
//! path and node, one at a time or in batches whose answers are told apart
//! by the position of the question.

use crate::after::FetchResult;
use crate::assoc::{lemma_push_contains, AssocMap};
use crate::attrs::FileAttributes;
use crate::error::StoreError;
use crate::file::StoreFileView;
use crate::keys::{bytes_clone, keys_view, HgId, Key, KeyView};
use crate::result::FileStoreFetch;
use crate::store::{lemma_fetch_partition, FileStore, FileStoreView};
use crate::tree::TreeStore;
use vstd::prelude::*;

verus! {

/// One answer of a batch: the position of the question, and the bytes that
/// were found, `None` if nothing was found, or an error.
pub struct Resolution {
    pub index: usize,
    pub result: Result<Option<Vec<u8>>, StoreError>,
}

/// The mathematical value of the result of a question.
pub open spec fn bytes_view(r: Result<Option<Vec<u8>>, StoreError>) -> Result<
    Option<Seq<u8>>,
    StoreError,
> {
    match r {
        Ok(Some(b)) => Ok(Some(b@)),
        Ok(None) => Ok(None),
        Err(e) => Err(e),
    }
}

/// The mathematical value of a batch of questions, each a key or the error
/// that stands in for a key that could not be built.
pub open spec fn requests_view(keys: Seq<Result<Key, StoreError>>) -> Seq<
    Result<KeyView, StoreError>,
> {
    keys.map_values(
        |r: Result<Key, StoreError>|
            match r {
                Ok(k) => Ok(k@),
                Err(e) => Err(e),
            },
    )
}

/// The keys of a batch, each once, in the order in which they first occur.
pub open spec fn distinct_keys(reqs: Seq<Result<KeyView, StoreError>>) -> Seq<KeyView>
    decreases reqs.len(),
{
    if reqs.len() == 0 {
        Seq::empty()
    } else {
        let front = distinct_keys(reqs.drop_last());
        match reqs.last() {
            Ok(k) => if front.contains(k) {
                front
            } else {
                front.push(k)
            },
            Err(_) => front,
        }
    }
}

/// The question at position `i` asks for a key that an earlier question
/// asked for.
pub open spec fn is_repeat(reqs: Seq<Result<KeyView, StoreError>>, i: int) -> bool {
    match reqs[i] {
        Ok(k) => distinct_keys(reqs.subrange(0, i)).contains(k),
        Err(_) => false,
    }
}

/// What a batch of questions for file content answers at position `i`: the
/// error that stands in for the key; an error if the key repeats an earlier
/// one; else the content of the file if it was found, the last error met
/// for it if there is one, and `None` otherwise.
pub open spec fn blob_resolution(
    reqs: Seq<Result<KeyView, StoreError>>,
    m: FetchResult,
    i: int,
) -> Result<Option<Seq<u8>>, StoreError> {
    match reqs[i] {
        Err(e) => Err(e),
        Ok(k) => if is_repeat(reqs, i) {
            Err(StoreError::DuplicateKey)
        } else if m.complete.contains_key(k) {
            Ok(Some(m.complete[k].content->0.file_content()))
        } else if m.incomplete.contains_key(k) && m.incomplete[k].len() > 0 {
            Err(m.incomplete[k].last())
        } else {
            Ok(None)
        },
    }
}

/// What a batch of questions for trees answers at position `i`: the error
/// that stands in for the key; an error if the key repeats an earlier one;
/// if a tier failed as a whole, its error for the first key of the batch
/// and a general error for every other; else the stored bytes of the tree
/// if it was found, and `None` otherwise.
pub open spec fn tree_resolution(
    reqs: Seq<Result<KeyView, StoreError>>,
    m: FetchResult,
    i: int,
) -> Result<Option<Seq<u8>>, StoreError> {
    match reqs[i] {
        Err(e) => Err(e),
        Ok(k) => if is_repeat(reqs, i) {
            Err(StoreError::DuplicateKey)
        } else if m.other_errors.len() > 0 {
            if distinct_keys(reqs)[0] == k {
                Err(m.other_errors.last())
            } else {
                Err(StoreError::BatchFailed)
            }
        } else if m.complete.contains_key(k) {
            Ok(Some(m.complete[k].content->0.hg_content()))
        } else {
            Ok(None)
        },
    }
}

/// The question at position `i` has an answer in `r`.
pub open spec fn answered(r: Seq<Resolution>, i: int) -> bool {
    exists|j: int| 0 <= j < r.len() && (#[trigger] r[j]).index == i
}

/// The question at position `i` is noted under its key.
pub open spec fn noted(
    reqs: Seq<Result<KeyView, StoreError>>,
    indexes: crate::assoc::OrdMap<KeyView, usize>,
    i: int,
) -> bool {
    match reqs[i] {
        Ok(k) => indexes.map.contains_key(k) && indexes.map[k] == i,
        Err(_) => false,
    }
}

/// Every question of the batch is answered, and every answer is the one
/// that `answer` gives for its position.
pub open spec fn all_resolved(
    n: int,
    answer: spec_fn(int) -> Result<Option<Seq<u8>>, StoreError>,
    r: Seq<Resolution>,
) -> bool {
    &&& r.len() == n
    &&& forall|j: int|
        0 <= j < r.len() ==> (#[trigger] r[j]).index < n && bytes_view(r[j].result) == answer(
            r[j].index as int,
        )
    &&& forall|i: int| 0 <= i < n ==> #[trigger] answered(r, i)
}

/// The questions of a batch sorted out: the answers that need no fetch, and
/// for each distinct key the position of its first question.
pub struct Indexed {
    pub resolved: Vec<Resolution>,
    pub indexes: AssocMap<Key, usize>,
}

/// `x` sorts out the first `n` questions of `reqs`.
pub open spec fn is_indexed(reqs: Seq<Result<KeyView, StoreError>>, n: int, x: Indexed) -> bool {
    &&& x.indexes@.wf()
    &&& x.indexes@.keys == distinct_keys(reqs.subrange(0, n))
    &&& x.resolved@.len() + x.indexes@.keys.len() == n
    &&& forall|k: KeyView| #[trigger]
        x.indexes@.map.contains_key(k) ==> 0 <= x.indexes@.map[k] < n && reqs[x.indexes@.map[k] as int]
            == Ok::<KeyView, StoreError>(k) && !is_repeat(reqs, x.indexes@.map[k] as int)
    &&& forall|j: int|
        0 <= j < x.resolved@.len() ==> (#[trigger] x.resolved@[j]).index < n && (match reqs[x.resolved@[j].index as int] {
            Err(e) => x.resolved@[j].result == Err::<Option<Vec<u8>>, StoreError>(e),
            Ok(k) => is_repeat(reqs, x.resolved@[j].index as int) && x.resolved@[j].result
                == Err::<Option<Vec<u8>>, StoreError>(StoreError::DuplicateKey),
        })
    &&& forall|i: int|
        0 <= i < n ==> #[trigger] answered(x.resolved@, i) || noted(reqs, x.indexes@, i)
}

/// Builds a key from a path and a node. Fails unless the node has twenty
/// bytes.
pub fn key_from_path_node_slice(path: &[u8], node: &[u8]) -> (r: Result<Key, StoreError>)
    ensures
        match r {
            Ok(k) => node@.len() == 20 && k@.path == path@ && k@.hgid.bytes@ == node@,
            Err(e) => node@.len() != 20 && e == StoreError::InvalidKey,
        },
{
    match HgId::from_slice(node) {
        Some(hgid) => Ok(Key::new(bytes_clone(path), hgid)),
        None => Err(StoreError::InvalidKey),
    }
}

/// Sorts out the questions of a batch: a question without a key is answered
/// with the error that stands in for the key, a question that repeats an
/// earlier key is answered with an error, and every other question is noted
/// under its key.
pub fn index_requests(keys: &Vec<Result<Key, StoreError>>) -> (x: Indexed)
    ensures
        is_indexed(requests_view(keys@), keys@.len() as int, x),
{
    let ghost reqs = requests_view(keys@);
    let mut resolved: Vec<Resolution> = Vec::new();
    let mut indexes: AssocMap<Key, usize> = AssocMap::new();
    let n = keys.len();
    let mut i: usize = 0;
    while i < n
        invariant
            i <= n,
            n == keys@.len(),
            reqs == requests_view(keys@),
            is_indexed(reqs, i as int, Indexed { resolved, indexes }),
        decreases n - i,
    {
        let ghost before = Indexed { resolved, indexes };
        proof {
            assert(reqs.subrange(0, i + 1).drop_last() =~= reqs.subrange(0, i as int));
            assert(reqs.subrange(0, i + 1).last() == reqs[i as int]);
            lemma_push_contains(before.indexes@.keys, arbitrary());
        }
        match &keys[i] {
            Ok(key) => {
                if indexes.contains_key(key) {
                    resolved.push(Resolution { index: i, result: Err(StoreError::DuplicateKey) });
                } else {
                    proof {
                        lemma_push_contains(before.indexes@.keys, key@);
                    }
                    indexes.insert(key.clone(), i);
                }
            },
            Err(e) => {
                // Answer at once when the key is invalid.
                resolved.push(Resolution { index: i, result: Err(*e) });
            },
        }
        proof {
            let after = Indexed { resolved, indexes };
            assert forall|k: KeyView| #[trigger]
                after.indexes@.map.contains_key(k) implies 0 <= after.indexes@.map[k] < i + 1
                && reqs[after.indexes@.map[k] as int] == Ok::<KeyView, StoreError>(k) && !is_repeat(
                reqs,
                after.indexes@.map[k] as int,
            ) by {
                if before.indexes@.map.contains_key(k) {
                    assert(after.indexes@.map[k] == before.indexes@.map[k]);
                }
            }
            assert forall|j: int| 0 <= j < after.resolved@.len() implies (
            #[trigger] after.resolved@[j]).index < i + 1 && (match reqs[after.resolved@[j].index as int] {
                Err(e) => after.resolved@[j].result == Err::<Option<Vec<u8>>, StoreError>(e),
                Ok(k) => is_repeat(reqs, after.resolved@[j].index as int)
                    && after.resolved@[j].result == Err::<Option<Vec<u8>>, StoreError>(
                    StoreError::DuplicateKey,
                ),
            }) by {
                if j < before.resolved@.len() {
                    assert(after.resolved@[j] == before.resolved@[j]);
                }
            }
            assert forall|x: int| 0 <= x < i + 1 implies #[trigger] answered(after.resolved@, x)
                || noted(reqs, after.indexes@, x) by {
                if x < i {
                    assert(answered(before.resolved@, x) || noted(reqs, before.indexes@, x));
                    if answered(before.resolved@, x) {
                        let j = choose|j: int|
                            0 <= j < before.resolved@.len() && (#[trigger] before.resolved@[j]).index
                                == x;
                        assert(after.resolved@[j].index == x);
                    } else {
                        match reqs[x] {
                            Ok(k) => {
                                assert(before.indexes@.map.contains_key(k));
                            },
                            Err(_) => {},
                        }
                    }
                } else {
                    if after.resolved@.len() > before.resolved@.len() {
                        assert(after.resolved@[after.resolved@.len() - 1].index == x);
                    }
                }
            }
        }
        i += 1;
    }
    proof {
        assert(reqs.subrange(0, n as int) =~= reqs);
    }
    Indexed { resolved, indexes }
}

/// The keys of the map, in order.
fn keys_of(indexes: &AssocMap<Key, usize>) -> (r: Vec<Key>)
    ensures
        keys_view(r@) == indexes@.keys,
{
    let mut out: Vec<Key> = Vec::new();
    let n = indexes.len();
    let mut i: usize = 0;
    while i < n
        invariant
            i <= n,
            n == indexes@.keys.len(),
            keys_view(out@) == indexes@.keys.subrange(0, i as int),
        decreases n - i,
    {
        let ghost before = out@;
        out.push(indexes.key_at(i).clone());
        assert(keys_view(out@) =~= keys_view(before).push(indexes@.keys[i as int]));
        assert(keys_view(out@) =~= indexes@.keys.subrange(0, i + 1));
        i += 1;
    }
    assert(indexes@.keys.subrange(0, n as int) =~= indexes@.keys);
    out
}

/// The file store and the tree store behind a virtual file system.
pub struct BackingScmStores {
    pub filestore: FileStore,
    pub treestore: TreeStore,
}

impl BackingScmStores {
    /// The backing store over a file store and a tree store.
    pub fn new(filestore: FileStore, treestore: TreeStore) -> (r: Self)
        ensures
            r.filestore == filestore,
            r.treestore == treestore,
    {
        BackingScmStores { filestore, treestore }
    }

    fn fetch_files(&mut self, keys: Vec<Key>, local_only: bool) -> (r: FileStoreFetch)
        ensures
            final(self).treestore == old(self).treestore,
            final(self).filestore@ == old(self).after_files(keys_view(keys@), local_only),
            r@.complete.wf(),
            r@.incomplete.wf(),
            r@.complete.map == old(self).files_result(keys_view(keys@), local_only).complete,
            r@.incomplete.map == old(self).files_result(keys_view(keys@), local_only).incomplete,
            r@.other_errors == old(self).files_result(keys_view(keys@), local_only).other_errors,
            forall|k: KeyView|
                keys_view(keys@).contains(k) <==> (r@.complete.map.contains_key(k)
                    || r@.incomplete.map.contains_key(k)),
            forall|k: KeyView| #[trigger]
                r@.complete.map.contains_key(k) ==> r@.complete.map[k].content is Some,
    {
        if local_only {
            proof {
                lemma_fetch_partition(
                    self.filestore@.local(),
                    keys_view(keys@),
                    FileAttributes::spec_only_content(),
                );
            }
            self.filestore.fetch_local(keys, FileAttributes::only_content())
        } else {
            self.filestore.fetch(keys, FileAttributes::only_content())
        }
    }

    /// What a fetch of file content for `keys` returns, from the tiers on
    /// local disk only if `local_only`.
    pub open spec fn files_result(&self, keys: Seq<KeyView>, local_only: bool) -> FetchResult {
        if local_only {
            self.filestore@.local().fetch_result(keys, FileAttributes::spec_only_content())
        } else {
            self.filestore@.fetch_result(keys, FileAttributes::spec_only_content())
        }
    }

    /// The file store after a fetch of file content for `keys`.
    pub open spec fn after_files(&self, keys: Seq<KeyView>, local_only: bool) -> FileStoreView {
        if local_only {
            self.filestore@.local().after_fetch(
                keys,
                FileAttributes::spec_only_content(),
            ).with_remote_of(self.filestore@)
        } else {
            self.filestore@.after_fetch(keys, FileAttributes::spec_only_content())
        }
    }

    /// What a fetch of trees for `keys` returns, from the tiers on local
    /// disk only if `local_only`.
    pub open spec fn trees_result(&self, keys: Seq<KeyView>, local_only: bool) -> FetchResult {
        if local_only {
            self.treestore@.local().fetch_result(keys, FileAttributes::spec_only_content())
        } else {
            self.treestore@.fetch_result(keys, FileAttributes::spec_only_content())
        }
    }

    /// The tree store after a fetch of trees for `keys`.
    pub open spec fn after_trees(&self, keys: Seq<KeyView>, local_only: bool) -> FileStoreView {
        if local_only {
            self.treestore@.local().after_fetch(
                keys,
                FileAttributes::spec_only_content(),
            ).with_remote_of(self.treestore@)
        } else {
            self.treestore@.after_fetch(keys, FileAttributes::spec_only_content())
        }
    }

    /// Reads the content of the file at `path` and `node`. When
    /// `local_only`, only the tiers on local disk are asked.
    pub fn get_blob(&mut self, path: &[u8], node: &[u8], local_only: bool) -> (r: Result<
        Option<Vec<u8>>,
        StoreError,
    >)
        ensures
            final(self).treestore == old(self).treestore,
            node@.len() != 20 ==> r == Err::<Option<Vec<u8>>, StoreError>(StoreError::InvalidKey)
                && final(self).filestore@ == old(self).filestore@,
            node@.len() == 20 ==> exists|k: KeyView|
                k.path == path@ && k.hgid.bytes@ == node@ && bytes_view(r) == blob_of(
                    old(self).files_result(seq![k], local_only).single(k),
                ) && final(self).filestore@ == old(self).after_files(seq![k], local_only),
    {
        let key = match key_from_path_node_slice(path, node) {
            Ok(key) => key,
            Err(e) => {
                return Err(e);
            },
        };
        let ghost k = key@;
        let r = self.get_blob_by_key(key, local_only);
        assert(bytes_view(r) == blob_of(old(self).files_result(seq![k], local_only).single(k))
            && self.filestore@ == old(self).after_files(seq![k], local_only));
        r
    }

    /// Reads the content of the file `key`. When `local_only`, only the
    /// tiers on local disk are asked.
    pub fn get_blob_by_key(&mut self, key: Key, local_only: bool) -> (r: Result<
        Option<Vec<u8>>,
        StoreError,
    >)
        ensures
            final(self).treestore == old(self).treestore,
            final(self).filestore@ == old(self).after_files(seq![key@], local_only),
            bytes_view(r) == blob_of(old(self).files_result(seq![key@], local_only).single(key@)),
    {
        let ghost k = key@;
        let mut keys: Vec<Key> = Vec::new();
        keys.push(key);
        assert(keys_view(keys@) =~= seq![k]);
        let fetched = self.fetch_files(keys, local_only);
        proof {
            assert forall|x: KeyView| seq![k].contains(x) implies x == k by {}
            crate::access::lemma_single(
                fetched@,
                old(self).files_result(seq![k], local_only),
                seq![k],
                k,
            );
            if fetched@.complete.keys.len() > 0 {
                let x = fetched@.complete.keys.last();
                assert(fetched@.complete.keys[fetched@.complete.keys.len() - 1] == x);
                assert(fetched@.complete.keys.contains(x));
                assert(fetched@.complete.map.contains_key(x));
            }
        }
        match fetched.single() {
            Ok(Some(file)) => match file.file_content() {
                Ok(bytes) => Ok(Some(bytes)),
                Err(e) => Err(e),
            },
            Ok(None) => Ok(None),
            Err(e) => Err(e),
        }
    }

    /// Fetch file contents in batch. Each question is answered once, with
    /// the file content, `None`, or an error, and with the position of the
    /// question in `keys`. When `local_only`, only the tiers on local disk
    /// are asked.
    pub fn get_blob_batch(&mut self, keys: Vec<Result<Key, StoreError>>, local_only: bool) -> (r:
        Vec<Resolution>)
        ensures
            final(self).treestore == old(self).treestore,
            final(self).filestore@ == old(self).after_files(
                distinct_keys(requests_view(keys@)),
                local_only,
            ),
            all_resolved(
                keys@.len() as int,
                |i: int|
                    blob_resolution(
                        requests_view(keys@),
                        old(self).files_result(distinct_keys(requests_view(keys@)), local_only),
                        i,
                    ),
                r@,
            ),
    {
        let ghost reqs = requests_view(keys@);
        let ghost n = keys@.len() as int;
        let ghost m = self.files_result(distinct_keys(reqs), local_only);
        // Answer the questions without a usable key, and note the others.
        let Indexed { resolved, indexes } = index_requests(&keys);
        let ghost x = Indexed { resolved, indexes };
        let mut out = resolved;
        let wanted = keys_of(&indexes);
        proof {
            assert(reqs.subrange(0, n) =~= reqs);
        }
        let fetched = self.fetch_files(wanted, local_only);
        let ghost f = fetched@;
        let count = indexes.len();
        let ghost base = out@;
        let mut i: usize = 0;
        while i < count
            invariant
                i <= count,
                count == indexes@.keys.len(),
                x.indexes == indexes,
                x.resolved@ == base,
                is_indexed(reqs, n, x),
                fetched@ == f,
                f.complete.wf(),
                f.incomplete.wf(),
                f.complete.map == m.complete,
                f.incomplete.map == m.incomplete,
                forall|k: KeyView| #[trigger]
                    f.complete.map.contains_key(k) ==> f.complete.map[k].content is Some,
                out@.len() == base.len() + i,
                forall|j: int| 0 <= j < base.len() ==> out@[j] == base[j],
                forall|j: int|
                    0 <= j < i ==> (#[trigger] out@[base.len() + j]).index
                        == indexes@.map[indexes@.keys[j]] && bytes_view(
                        out@[base.len() + j].result,
                    ) == blob_resolution(reqs, m, indexes@.map[indexes@.keys[j]] as int),
            decreases count - i,
        {
            let key = indexes.key_at(i);
            let index = *indexes.value_at(i);
            proof {
                assert(indexes@.map.contains_key(key@));
            }
            let result: Result<Option<Vec<u8>>, StoreError> = match fetched.complete().get(key) {
                Some(file) => match file.file_content() {
                    Ok(bytes) => Ok(Some(bytes)),
                    Err(e) => Err(e),
                },
                None => match fetched.incomplete().get(key) {
                    Some(errors) => if errors.len() > 0 {
                        Err(errors[errors.len() - 1])
                    } else {
                        Ok(None)
                    },
                    None => Ok(None),
                },
            };
            out.push(Resolution { index, result });
            i += 1;
        }
        proof {
            let answer = |i: int| blob_resolution(reqs, m, i);
            assert forall|j: int| 0 <= j < out@.len() implies (#[trigger] out@[j]).index < n
                && bytes_view(out@[j].result) == answer(out@[j].index as int) by {
                if j < base.len() {
                    assert(out@[j] == base[j]);
                    assert(base[j].index < n);
                } else {
                    let t = j - base.len();
                    assert(out@[base.len() + t].index == indexes@.map[indexes@.keys[t]]);
                    assert(indexes@.keys.contains(indexes@.keys[t]));
                    assert(indexes@.map.contains_key(indexes@.keys[t]));
                }
            }
            assert forall|i: int| 0 <= i < n implies #[trigger] answered(out@, i) by {
                assert(answered(base, i) || noted(reqs, indexes@, i));
                if answered(base, i) {
                    let j = choose|j: int| 0 <= j < base.len() && (#[trigger] base[j]).index == i;
                    assert(out@[j].index == i);
                } else {
                    match reqs[i] {
                        Ok(k) => {
                            assert(indexes@.map.contains_key(k) && indexes@.map[k] == i);
                            assert(indexes@.keys.contains(k));
                            let t = choose|t: int|
                                0 <= t < indexes@.keys.len() && indexes@.keys[t] == k;
                            assert(out@[base.len() + t].index == i);
                        },
                        Err(_) => {},
                    }
                }
            }
        }
        out
    }

    /// Reads the tree `node`. When `local_only`, only the tiers on local
    /// disk are asked.
    pub fn get_tree(&mut self, node: &[u8], local_only: bool) -> (r: Result<
        Option<Vec<u8>>,
        StoreError,
    >)
        ensures
            final(self).filestore == old(self).filestore,
            node@.len() != 20 ==> r == Err::<Option<Vec<u8>>, StoreError>(StoreError::InvalidKey)
                && final(self).treestore@ == old(self).treestore@,
            node@.len() == 20 ==> exists|k: KeyView|
                k.path == Seq::<u8>::empty() && k.hgid.bytes@ == node@ && bytes_view(r) == tree_of(
                    old(self).trees_result(seq![k], local_only),
                    k,
                ) && final(self).treestore@ == old(self).after_trees(seq![k], local_only),
    {
        let hgid = match HgId::from_slice(node) {
            Some(hgid) => hgid,
            None => {
                return Err(StoreError::InvalidKey);
            },
        };
        let key = Key::new(Vec::new(), hgid);
        let ghost k = key@;
        let mut keys: Vec<Key> = Vec::new();
        keys.push(key.clone());
        assert(keys_view(keys@) =~= seq![k]);
        let fetched = self.treestore.fetch(keys, local_only);
        if fetched.other_errors().len() > 0 {
            let e = fetched.other_errors()[fetched.other_errors().len() - 1];
            assert(bytes_view(Err::<Option<Vec<u8>>, StoreError>(e)) == tree_of(
                old(self).trees_result(seq![k], local_only),
                k,
            ) && self.treestore@ == old(self).after_trees(seq![k], local_only));
            return Err(e);
        }
        let r = match fetched.complete().get(&key) {
            Some(file) => match file.content() {
                Some(c) => Ok(Some(c.hg_content())),
                None => Ok(None),
            },
            None => Ok(None),
        };
        assert(bytes_view(r) == tree_of(old(self).trees_result(seq![k], local_only), k)
            && self.treestore@ == old(self).after_trees(seq![k], local_only));
        r
    }

    /// Fetch tree contents in batch. Each question is answered once, with
    /// the stored bytes of the tree, `None`, or an error, and with the
    /// position of the question in `keys`. When `local_only`, only the tiers
    /// on local disk are asked.
    pub fn get_tree_batch(&mut self, keys: Vec<Result<Key, StoreError>>, local_only: bool) -> (r:
        Vec<Resolution>)
        ensures
            final(self).filestore == old(self).filestore,
            final(self).treestore@ == old(self).after_trees(
                distinct_keys(requests_view(keys@)),
                local_only,
            ),
            all_resolved(
                keys@.len() as int,
                |i: int|
                    tree_resolution(
                        requests_view(keys@),
                        old(self).trees_result(distinct_keys(requests_view(keys@)), local_only),
                        i,
                    ),
                r@,
            ),
    {
        let ghost reqs = requests_view(keys@);
        let ghost n = keys@.len() as int;
        let ghost m = self.trees_result(distinct_keys(reqs), local_only);
        // Answer the questions without a usable key, and note the others.
        let Indexed { resolved, indexes } = index_requests(&keys);
        let ghost x = Indexed { resolved, indexes };
        let mut out = resolved;
        let wanted = keys_of(&indexes);
        proof {
            assert(reqs.subrange(0, n) =~= reqs);
        }
        let fetched = self.treestore.fetch(wanted, local_only);
        let ghost f = fetched@;
        // If the batch failed as a whole, the first key is answered with the
        // error, and the others with a general one.
        let batch_error: Option<StoreError> = if fetched.other_errors().len() > 0 {
            Some(fetched.other_errors()[fetched.other_errors().len() - 1])
        } else {
            None
        };
        let count = indexes.len();
        let ghost base = out@;
        let mut i: usize = 0;
        while i < count
            invariant
                i <= count,
                count == indexes@.keys.len(),
                x.indexes == indexes,
                x.resolved@ == base,
                is_indexed(reqs, n, x),
                fetched@ == f,
                f.complete.wf(),
                f.complete.map == m.complete,
                f.other_errors == m.other_errors,
                indexes@.keys == distinct_keys(reqs),
                batch_error == (if m.other_errors.len() > 0 {
                    Some(m.other_errors.last())
                } else {
                    None
                }),
                forall|k: KeyView| #[trigger]
                    f.complete.map.contains_key(k) ==> f.complete.map[k].content is Some,
                out@.len() == base.len() + i,
                forall|j: int| 0 <= j < base.len() ==> out@[j] == base[j],
                forall|j: int|
                    0 <= j < i ==> (#[trigger] out@[base.len() + j]).index
                        == indexes@.map[indexes@.keys[j]] && bytes_view(
                        out@[base.len() + j].result,
                    ) == tree_resolution(reqs, m, indexes@.map[indexes@.keys[j]] as int),
            decreases count - i,
        {
            let key = indexes.key_at(i);
            let index = *indexes.value_at(i);
            proof {
                assert(indexes@.map.contains_key(key@));
                assert(indexes@.keys.no_duplicates());
                if i > 0 {
                    assert(indexes@.keys[0] != indexes@.keys[i as int]);
                }
            }
            let result: Result<Option<Vec<u8>>, StoreError> = match batch_error {
                Some(e) => if i == 0 {
                    Err(e)
                } else {
                    Err(StoreError::BatchFailed)
                },
                None => match fetched.complete().get(key) {
                    Some(file) => match file.content() {
                        Some(c) => Ok(Some(c.hg_content())),
                        None => Ok(None),
                    },
                    None => Ok(None),
                },
            };
            out.push(Resolution { index, result });
            i += 1;
        }
        proof {
            let answer = |i: int| tree_resolution(reqs, m, i);
            assert forall|j: int| 0 <= j < out@.len() implies (#[trigger] out@[j]).index < n
                && bytes_view(out@[j].result) == answer(out@[j].index as int) by {
                if j < base.len() {
                    assert(out@[j] == base[j]);
                    assert(base[j].index < n);
                } else {
                    let t = j - base.len();
                    assert(out@[base.len() + t].index == indexes@.map[indexes@.keys[t]]);
                    assert(indexes@.keys.contains(indexes@.keys[t]));
                    assert(indexes@.map.contains_key(indexes@.keys[t]));
                }
            }
            assert forall|i: int| 0 <= i < n implies #[trigger] answered(out@, i) by {
                assert(answered(base, i) || noted(reqs, indexes@, i));
                if answered(base, i) {
                    let j = choose|j: int| 0 <= j < base.len() && (#[trigger] base[j]).index == i;
                    assert(out@[j].index == i);
                } else {
                    match reqs[i] {
                        Ok(k) => {
                            assert(indexes@.map.contains_key(k) && indexes@.map[k] == i);
                            assert(indexes@.keys.contains(k));
                            let t = choose|t: int|
                                0 <= t < indexes@.keys.len() && indexes@.keys[t] == k;
                            assert(out@[base.len() + t].index == i);
                        },
                        Err(_) => {},
                    }
                }
            }
        }
        out
    }

    /// Nothing needs rescanning: the tiers are read as they are.
    pub fn refresh(&self) {
        let _ = self.filestore.refresh();
        let _ = self.treestore.refresh();
    }
}

/// The file content in the outcome of a question for one file.
pub open spec fn blob_of(r: Result<Option<StoreFileView>, StoreError>) -> Result<
    Option<Seq<u8>>,
    StoreError,
> {
    match r {
        Ok(Some(f)) => Ok(Some(f.content->0.file_content())),
        Ok(None) => Ok(None),
        Err(e) => Err(e),
    }
}

/// The stored bytes of the tree `k` in the result of a fetch for it: the
/// error of a tier that failed as a whole; else the bytes if the tree was
/// found; else `None`.
pub open spec fn tree_of(m: FetchResult, k: KeyView) -> Result<Option<Seq<u8>>, StoreError> {
    if m.other_errors.len() > 0 {
        Err(m.other_errors.last())
    } else if m.complete.contains_key(k) {
        Ok(Some(m.complete[k].content->0.hg_content()))
    } else {
        Ok(None)
    }
}

} // verus!
