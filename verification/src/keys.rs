//! Identifiers: revision hashes, content hashes, and the `(path, hash)` keys
//! under which file content is requested and stored.

use vstd::prelude::*;

verus! {

/// A value that can serve as the key of an [`crate::assoc::AssocMap`].
///
/// The view of a key is its mathematical identity: two keys name the same
/// slot exactly when their views are equal.
pub trait MapKey: View + Sized {
    /// Decides whether two keys are the same key.
    fn same_key(&self, other: &Self) -> (r: bool)
        ensures
            r == (self@ == other@),
    ;

    /// Returns a copy of the key.
    fn clone_key(&self) -> (r: Self)
        ensures
            r@ == self@,
    ;
}

impl MapKey for u64 {
    fn same_key(&self, other: &Self) -> (r: bool) {
        *self == *other
    }

    fn clone_key(&self) -> (r: Self) {
        *self
    }
}

/// Compares two byte strings.
pub fn bytes_eq(a: &[u8], b: &[u8]) -> (r: bool)
    ensures
        r == (a@ == b@),
{
    if a.len() != b.len() {
        return false;
    }
    let mut i: usize = 0;
    while i < a.len()
        invariant
            i <= a.len(),
            a.len() == b.len(),
            forall|j: int| 0 <= j < i ==> a@[j] == b@[j],
        decreases a.len() - i,
    {
        if a[i] != b[i] {
            return false;
        }
        i += 1;
    }
    assert(a@ =~= b@);
    true
}

/// Copies a byte string.
pub fn bytes_clone(a: &[u8]) -> (r: Vec<u8>)
    ensures
        r@ == a@,
{
    let mut out: Vec<u8> = Vec::new();
    let mut i: usize = 0;
    while i < a.len()
        invariant
            i <= a.len(),
            out@ == a@.subrange(0, i as int),
        decreases a.len() - i,
    {
        out.push(a[i]);
        assert(out@ =~= a@.subrange(0, i + 1));
        i += 1;
    }
    assert(a@.subrange(0, a.len() as int) =~= a@);
    out
}

/// The hash that names one revision of a file (20 bytes).
#[derive(Clone, Copy, Debug)]
pub struct HgId {
    pub bytes: [u8; 20],
}

impl View for HgId {
    type V = HgId;

    open spec fn view(&self) -> HgId {
        *self
    }
}

/// Two revision hashes with the same bytes are the same hash.
pub proof fn lemma_hgid_ext(a: HgId, b: HgId)
    requires
        a.bytes@ == b.bytes@,
    ensures
        a == b,
{
    assert(a.bytes =~= b.bytes);
}

impl HgId {
    /// Wraps twenty bytes as a revision hash.
    pub fn from_bytes(bytes: [u8; 20]) -> (r: HgId)
        ensures
            r.bytes == bytes,
    {
        HgId { bytes }
    }

    /// The all-zero hash, which names no revision.
    pub fn null_id() -> (r: HgId)
        ensures
            r.bytes@ == Seq::new(20, |i: int| 0u8),
    {
        let r = HgId { bytes: [0u8; 20] };
        assert(r.bytes@ =~= Seq::new(20, |i: int| 0u8));
        r
    }

    /// Reads a revision hash from a slice; `None` unless it has exactly
    /// twenty bytes.
    pub fn from_slice(bytes: &[u8]) -> (r: Option<HgId>)
        ensures
            bytes@.len() == 20 <==> r is Some,
            r matches Some(id) ==> id.bytes@ == bytes@,
    {
        if bytes.len() != 20 {
            return None;
        }
        let mut out = [0u8; 20];
        let mut i: usize = 0;
        while i < 20
            invariant
                i <= 20,
                bytes@.len() == 20,
                forall|j: int| 0 <= j < i ==> out@[j] == bytes@[j],
            decreases 20 - i,
        {
            out[i] = bytes[i];
            i += 1;
        }
        let id = HgId { bytes: out };
        assert(id.bytes@ =~= bytes@);
        Some(id)
    }
}

impl MapKey for HgId {
    fn same_key(&self, other: &Self) -> (r: bool) {
        proof {
            if self.bytes@ == other.bytes@ {
                lemma_hgid_ext(*self, *other);
            }
        }
        bytes_eq(self.bytes.as_slice(), other.bytes.as_slice())
    }

    fn clone_key(&self) -> (r: Self) {
        *self
    }
}

/// A SHA-256 digest, used to address large-file content (32 bytes).
#[derive(Clone, Copy, Debug)]
pub struct Sha256 {
    pub bytes: [u8; 32],
}

impl View for Sha256 {
    type V = Sha256;

    open spec fn view(&self) -> Sha256 {
        *self
    }
}

/// Two digests with the same bytes are the same digest.
pub proof fn lemma_sha256_ext(a: Sha256, b: Sha256)
    requires
        a.bytes@ == b.bytes@,
    ensures
        a == b,
{
    assert(a.bytes =~= b.bytes);
}

impl Sha256 {
    /// Wraps thirty-two bytes as a digest.
    pub fn from_bytes(bytes: [u8; 32]) -> (r: Sha256)
        ensures
            r.bytes == bytes,
    {
        Sha256 { bytes }
    }

    /// Reads a digest from a slice; `None` unless it has exactly thirty-two
    /// bytes.
    pub fn from_slice(bytes: &[u8]) -> (r: Option<Sha256>)
        ensures
            bytes@.len() == 32 <==> r is Some,
            r matches Some(id) ==> id.bytes@ == bytes@,
    {
        if bytes.len() != 32 {
            return None;
        }
        let mut out = [0u8; 32];
        let mut i: usize = 0;
        while i < 32
            invariant
                i <= 32,
                bytes@.len() == 32,
                forall|j: int| 0 <= j < i ==> out@[j] == bytes@[j],
            decreases 32 - i,
        {
            out[i] = bytes[i];
            i += 1;
        }
        let id = Sha256 { bytes: out };
        assert(id.bytes@ =~= bytes@);
        Some(id)
    }
}

impl MapKey for Sha256 {
    fn same_key(&self, other: &Self) -> (r: bool) {
        proof {
            if self.bytes@ == other.bytes@ {
                lemma_sha256_ext(*self, *other);
            }
        }
        bytes_eq(self.bytes.as_slice(), other.bytes.as_slice())
    }

    fn clone_key(&self) -> (r: Self) {
        *self
    }
}

/// The mathematical identity of a [`Key`].
pub struct KeyView {
    pub path: Seq<u8>,
    pub hgid: HgId,
}

/// A file at a path, at one revision.
///
/// The path may be empty for items addressed by hash alone.
#[derive(Debug)]
pub struct Key {
    pub path: Vec<u8>,
    pub hgid: HgId,
}

impl View for Key {
    type V = KeyView;

    open spec fn view(&self) -> KeyView {
        KeyView { path: self.path@, hgid: self.hgid }
    }
}

/// The views of a sequence of keys.
pub open spec fn keys_view(v: Seq<Key>) -> Seq<KeyView> {
    v.map_values(|k: Key| k@)
}

impl Key {
    /// The key for `path` at the revision `hgid`.
    pub fn new(path: Vec<u8>, hgid: HgId) -> (r: Key)
        ensures
            r.path == path,
            r.hgid == hgid,
    {
        Key { path, hgid }
    }
}

impl Clone for Key {
    fn clone(&self) -> (r: Key)
        ensures
            r@ == self@,
    {
        Key { path: bytes_clone(self.path.as_slice()), hgid: self.hgid }
    }
}

impl MapKey for Key {
    fn same_key(&self, other: &Self) -> (r: bool) {
        self.hgid.same_key(&other.hgid) && bytes_eq(self.path.as_slice(), other.path.as_slice())
    }

    fn clone_key(&self) -> (r: Self) {
        self.clone()
    }
}

} // verus!
