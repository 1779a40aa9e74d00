//! Byte formats: the copy header in front of file content, the stored form
//! of a large-file pointer, the stored form of auxiliary data, and the
//! content hash.

use crate::error::StoreError;
use crate::keys::{lemma_sha256_ext, HgId, Sha256};
use crate::types::{Entry, FileAuxData, LfsPointersEntry};
use sha2::Digest;
use vstd::bytes::{
    lemma_auto_spec_u64_to_from_le_bytes, spec_u64_from_le_bytes, spec_u64_to_le_bytes,
    u64_from_le_bytes, u64_to_le_bytes,
};
use vstd::prelude::*;

verus! {

// ---------------------------------------------------------------------
// Content hash
// ---------------------------------------------------------------------
/// The SHA-256 digest of a byte string, as the `sha2` crate computes it.
pub uninterp spec fn sha256_digest(data: Seq<u8>) -> Seq<u8>;

/// Calls `sha2::Sha256::digest`, the one-shot SHA-256 of `data`. The
/// contract names the digest and claims nothing else of it; that it has
/// thirty-two bytes is the output size the crate declares for this hasher.
#[verifier::external_body]
fn sha256_raw(data: &[u8]) -> (r: [u8; 32])
    ensures
        r@ == sha256_digest(data@),
{
    sha2::Sha256::digest(data).into()
}

/// The content hash of a byte string: the digest as a hash value.
pub open spec fn sha256_of(data: Seq<u8>) -> Sha256 {
    choose|h: Sha256| h.bytes@ == sha256_digest(data)
}

/// The content hash of `data`.
pub fn content_sha256(data: &[u8]) -> (r: Sha256)
    ensures
        r.bytes@ == sha256_digest(data@),
        r == sha256_of(data@),
{
    let r = Sha256 { bytes: sha256_raw(data) };
    proof {
        lemma_sha256_ext(r, sha256_of(data@));
    }
    r
}

// ---------------------------------------------------------------------
// Copy header
// ---------------------------------------------------------------------
/// The two-byte marker `\x01\n` stands at position `i`.
pub open spec fn marker_at(data: Seq<u8>, i: int) -> bool {
    0 <= i && i + 1 < data.len() && data[i] == 1u8 && data[i + 1] == 10u8
}

/// The first marker after the opening one stands at position `p`.
pub open spec fn header_closes_at(data: Seq<u8>, p: int) -> bool {
    2 <= p && marker_at(data, p) && forall|j: int| 2 <= j < p ==> !marker_at(data, j)
}

/// The bytes start with a complete copy header: an opening marker and a
/// closing one.
pub open spec fn has_header(data: Seq<u8>) -> bool {
    marker_at(data, 0) && exists|p: int| header_closes_at(data, p)
}

/// The file content as the working copy sees it: the stored bytes without
/// their copy header, if they have one.
pub open spec fn file_content_of(data: Seq<u8>) -> Seq<u8> {
    if has_header(data) {
        let p = choose|p: int| header_closes_at(data, p);
        data.subrange(p + 2, data.len() as int)
    } else {
        data
    }
}

/// Bytes that do not start with the marker are their own content.
pub proof fn lemma_no_header(data: Seq<u8>)
    requires
        !marker_at(data, 0),
    ensures
        file_content_of(data) == data,
{
}

/// Strips the copy header, if there is one, from stored bytes.
pub fn strip_metadata(data: &[u8]) -> (r: Vec<u8>)
    ensures
        r@ == file_content_of(data@),
{
    let n = data.len();
    let mut start: usize = 0;
    if n >= 2 && data[0] == 1u8 && data[1] == 10u8 {
        let mut i: usize = 2;
        let mut found = false;
        while !found && i < n - 1
            invariant
                2 <= i <= n,
                n == data@.len(),
                !found ==> forall|j: int| 2 <= j < i ==> !marker_at(data@, j),
                found ==> header_closes_at(data@, i as int),
                found ==> i + 1 < n,
            decreases n - i + (if found { 0int } else { 1int }),
        {
            if data[i] == 1u8 && data[i + 1] == 10u8 {
                found = true;
            } else {
                i += 1;
            }
        }
        if found {
            proof {
                let p = choose|p: int| header_closes_at(data@, p);
                assert(header_closes_at(data@, i as int));
                assert(p == i);
            }
            start = i + 2;
        } else {
            proof {
                assert forall|p: int| !header_closes_at(data@, p) by {
                    if header_closes_at(data@, p) {
                        assert(marker_at(data@, p));
                        assert(p < i);
                    }
                }
            }
        }
    }
    let mut out: Vec<u8> = Vec::new();
    let mut k: usize = start;
    while k < n
        invariant
            start <= k <= n,
            n == data@.len(),
            out@ == data@.subrange(start as int, k as int),
        decreases n - k,
    {
        out.push(data[k]);
        assert(out@ =~= data@.subrange(start as int, k + 1));
        k += 1;
    }
    assert(data@.subrange(0, n as int) =~= data@);
    out
}

// ---------------------------------------------------------------------
// Large-file pointers
// ---------------------------------------------------------------------
/// The stored form of a pointer: the thirty-two bytes of the content hash,
/// then the size as eight little-endian bytes. The revision is not stored;
/// it is the one the entry is filed under.
pub open spec fn pointer_bytes(ptr: LfsPointersEntry) -> Seq<u8> {
    ptr.sha256.bytes@ + spec_u64_to_le_bytes(ptr.size)
}

/// A pointer's stored form has forty bytes and determines hash and size.
pub proof fn lemma_pointer_bytes(a: LfsPointersEntry, b: LfsPointersEntry)
    ensures
        pointer_bytes(a).len() == 40,
        pointer_bytes(a) == pointer_bytes(b) ==> a.sha256 == b.sha256 && a.size == b.size,
{
    lemma_auto_spec_u64_to_from_le_bytes();
    if pointer_bytes(a) == pointer_bytes(b) {
        assert(a.sha256.bytes@ =~= pointer_bytes(a).subrange(0, 32));
        assert(b.sha256.bytes@ =~= pointer_bytes(b).subrange(0, 32));
        lemma_sha256_ext(a.sha256, b.sha256);
        assert(spec_u64_to_le_bytes(a.size) =~= pointer_bytes(a).subrange(32, 40));
        assert(spec_u64_to_le_bytes(b.size) =~= pointer_bytes(b).subrange(32, 40));
        assert(spec_u64_from_le_bytes(spec_u64_to_le_bytes(a.size)) == a.size);
        assert(spec_u64_from_le_bytes(spec_u64_to_le_bytes(b.size)) == b.size);
    }
}

/// Some pointer has `data` as its stored form.
pub open spec fn pointer_parses(data: Seq<u8>) -> bool {
    exists|p: LfsPointersEntry| pointer_bytes(p) == data
}

/// The pointer that `data` is the stored form of, for the revision `hgid`.
pub open spec fn parsed_pointer(data: Seq<u8>, hgid: HgId) -> LfsPointersEntry {
    let p = choose|p: LfsPointersEntry| pointer_bytes(p) == data;
    LfsPointersEntry { hgid, size: p.size, sha256: p.sha256 }
}

/// Reading back what was written gives the pointer that was written.
pub proof fn lemma_pointer_roundtrip(ptr: LfsPointersEntry)
    ensures
        pointer_parses(pointer_bytes(ptr)),
        parsed_pointer(pointer_bytes(ptr), ptr.hgid) == ptr,
{
    let data = pointer_bytes(ptr);
    let p = choose|p: LfsPointersEntry| pointer_bytes(p) == data;
    lemma_pointer_bytes(p, ptr);
}

/// Writes a pointer in its stored form.
pub fn pointer_to_bytes(ptr: &LfsPointersEntry) -> (r: Vec<u8>)
    ensures
        r@ == pointer_bytes(*ptr),
{
    let mut out: Vec<u8> = Vec::new();
    let mut i: usize = 0;
    while i < 32
        invariant
            i <= 32,
            out@ == ptr.sha256.bytes@.subrange(0, i as int),
        decreases 32 - i,
    {
        out.push(ptr.sha256.bytes[i]);
        assert(out@ =~= ptr.sha256.bytes@.subrange(0, i + 1));
        i += 1;
    }
    assert(ptr.sha256.bytes@.subrange(0, 32) =~= ptr.sha256.bytes@);
    let size = u64_to_le_bytes(ptr.size);
    proof {
        lemma_auto_spec_u64_to_from_le_bytes();
    }
    let mut j: usize = 0;
    while j < 8
        invariant
            j <= 8,
            size@.len() == 8,
            out@ == ptr.sha256.bytes@ + size@.subrange(0, j as int),
        decreases 8 - j,
    {
        out.push(size[j]);
        assert(out@ =~= ptr.sha256.bytes@ + size@.subrange(0, j + 1));
        j += 1;
    }
    assert(size@.subrange(0, 8) =~= size@);
    out
}

/// Reads a pointer from its stored form, for the revision `hgid`.
///
/// Succeeds exactly on the byte strings that are the stored form of some
/// pointer.
pub fn pointer_from_bytes(data: &[u8], hgid: HgId) -> (r: Result<LfsPointersEntry, StoreError>)
    ensures
        match r {
            Ok(ptr) => pointer_parses(data@) && ptr == parsed_pointer(data@, hgid),
            Err(e) => e == StoreError::MalformedPointer && !pointer_parses(data@),
        },
{
    proof {
        lemma_auto_spec_u64_to_from_le_bytes();
    }
    if data.len() != 40 {
        proof {
            assert forall|p: LfsPointersEntry| pointer_bytes(p) != data@ by {
                lemma_pointer_bytes(p, p);
            }
        }
        return Err(StoreError::MalformedPointer);
    }
    let mut hash = [0u8; 32];
    let mut i: usize = 0;
    while i < 32
        invariant
            i <= 32,
            data@.len() == 40,
            forall|j: int| 0 <= j < i ==> hash@[j] == data@[j],
        decreases 32 - i,
    {
        hash[i] = data[i];
        i += 1;
    }
    let mut tail: Vec<u8> = Vec::new();
    let mut j: usize = 32;
    while j < 40
        invariant
            32 <= j <= 40,
            data@.len() == 40,
            tail@ == data@.subrange(32, j as int),
        decreases 40 - j,
    {
        tail.push(data[j]);
        assert(tail@ =~= data@.subrange(32, j + 1));
        j += 1;
    }
    let size = u64_from_le_bytes(tail.as_slice());
    let ptr = LfsPointersEntry { hgid, size, sha256: Sha256 { bytes: hash } };
    proof {
        assert(spec_u64_to_le_bytes(size) == tail@);
        assert(pointer_bytes(ptr) =~= data@);
        lemma_pointer_roundtrip(ptr);
    }
    Ok(ptr)
}

/// Reads the pointer that a stored entry holds. Fails if the entry is not
/// flagged as a large-file pointer, or if its bytes are not the stored form
/// of a pointer.
pub fn pointer_from_entry(entry: &Entry) -> (r: Result<LfsPointersEntry, StoreError>)
    ensures
        match r {
            Ok(ptr) => entry@.metadata.spec_is_lfs() && pointer_parses(entry@.content) && ptr
                == parsed_pointer(entry@.content, entry@.key.hgid),
            Err(e) => if entry@.metadata.spec_is_lfs() {
                e == StoreError::MalformedPointer && !pointer_parses(entry@.content)
            } else {
                e == StoreError::NotLfsPointer
            },
        },
{
    if entry.metadata().is_lfs() {
        pointer_from_bytes(entry.content().as_slice(), entry.key().hgid)
    } else {
        Err(StoreError::NotLfsPointer)
    }
}

// ---------------------------------------------------------------------
// Auxiliary data
// ---------------------------------------------------------------------
/// The lower-case hexadecimal digit for a value below sixteen.
pub open spec fn hex_digit(n: u8) -> u8 {
    if n < 10 {
        (48 + n) as u8
    } else {
        (87 + n) as u8
    }
}

/// Two hexadecimal digits for each byte, high half first.
pub open spec fn hex_of(bytes: Seq<u8>) -> Seq<u8> {
    Seq::new(
        2 * bytes.len(),
        |i: int|
            if i % 2 == 0 {
                hex_digit(bytes[i / 2] / 16)
            } else {
                hex_digit(bytes[i / 2] % 16)
            },
    )
}

/// The text `{"content_sha256":"`.
pub open spec fn aux_prefix() -> Seq<u8> {
    seq![
        123u8, 34u8, 99u8, 111u8, 110u8, 116u8, 101u8, 110u8, 116u8, 95u8, 115u8, 104u8, 97u8,
        50u8, 53u8, 54u8, 34u8, 58u8, 34u8,
    ]
}

/// The text `"}`.
pub open spec fn aux_suffix() -> Seq<u8> {
    seq![34u8, 125u8]
}

/// The stored form of auxiliary data: a one-field JSON object that holds the
/// content hash in hexadecimal.
pub open spec fn aux_bytes_of(content_sha256: Seq<u8>) -> Seq<u8> {
    aux_prefix() + hex_of(content_sha256) + aux_suffix()
}

/// The stored form of `aux`.
pub open spec fn aux_bytes(aux: FileAuxData) -> Seq<u8> {
    aux_bytes_of(aux.content_sha256.bytes@)
}

fn hex_digit_of(n: u8) -> (c: u8)
    requires
        n < 16,
    ensures
        c == hex_digit(n),
{
    if n < 10 {
        48 + n
    } else {
        87 + n
    }
}

fn hex_value_of(c: u8) -> (r: Option<u8>)
    ensures
        match r {
            Some(n) => n < 16 && hex_digit(n) == c,
            None => forall|n: u8| n < 16 ==> hex_digit(n) != c,
        },
{
    if 48 <= c && c <= 57 {
        Some(c - 48)
    } else if 97 <= c && c <= 102 {
        Some(c - 87)
    } else {
        None
    }
}

/// Some auxiliary data has `data` as its stored form.
pub open spec fn aux_parses(data: Seq<u8>) -> bool {
    exists|a: FileAuxData| aux_bytes(a) == data
}

/// The auxiliary data that `data` is the stored form of.
pub open spec fn parsed_aux(data: Seq<u8>) -> FileAuxData {
    choose|a: FileAuxData| aux_bytes(a) == data
}

/// Writes auxiliary data in its stored form.
pub fn aux_to_bytes(aux: &FileAuxData) -> (r: Vec<u8>)
    ensures
        r@ == aux_bytes(*aux),
{
    let prefix: [u8; 19] = [
        123, 34, 99, 111, 110, 116, 101, 110, 116, 95, 115, 104, 97, 50, 53, 54, 34, 58, 34,
    ];
    assert(prefix@ =~= aux_prefix());
    let mut out: Vec<u8> = Vec::new();
    let mut i: usize = 0;
    while i < 19
        invariant
            i <= 19,
            prefix@ == aux_prefix(),
            out@ == aux_prefix().subrange(0, i as int),
        decreases 19 - i,
    {
        out.push(prefix[i]);
        assert(out@ =~= aux_prefix().subrange(0, i + 1));
        i += 1;
    }
    assert(aux_prefix().subrange(0, 19) =~= aux_prefix());
    let ghost hex = hex_of(aux.content_sha256.bytes@);
    let mut j: usize = 0;
    while j < 32
        invariant
            j <= 32,
            hex == hex_of(aux.content_sha256.bytes@),
            out@ == aux_prefix() + hex.subrange(0, 2 * j),
        decreases 32 - j,
    {
        let b = aux.content_sha256.bytes[j];
        out.push(hex_digit_of(b / 16));
        out.push(hex_digit_of(b % 16));
        proof {
            assert(hex[2 * j] == hex_digit(b / 16));
            assert(hex[2 * j + 1] == hex_digit(b % 16));
            assert(out@ =~= aux_prefix() + hex.subrange(0, 2 * (j + 1)));
        }
        j += 1;
    }
    assert(hex.subrange(0, 64) =~= hex);
    out.push(34u8);
    out.push(125u8);
    assert(out@ =~= aux_bytes(*aux));
    out
}

/// Reads auxiliary data from its stored form.
///
/// Succeeds exactly on the byte strings that are the stored form of some
/// auxiliary data.
pub fn aux_from_bytes(data: &[u8]) -> (r: Result<FileAuxData, StoreError>)
    ensures
        match r {
            Ok(aux) => aux_parses(data@) && aux == parsed_aux(data@),
            Err(e) => e == StoreError::MalformedAuxData && !aux_parses(data@),
        },
{
    if data.len() != 85 {
        return Err(StoreError::MalformedAuxData);
    }
    let prefix: [u8; 19] = [
        123, 34, 99, 111, 110, 116, 101, 110, 116, 95, 115, 104, 97, 50, 53, 54, 34, 58, 34,
    ];
    assert(prefix@ =~= aux_prefix());
    let mut i: usize = 0;
    while i < 19
        invariant
            i <= 19,
            data@.len() == 85,
            prefix@ == aux_prefix(),
            forall|k: int| 0 <= k < i ==> data@[k] == aux_prefix()[k],
        decreases 19 - i,
    {
        if data[i] != prefix[i] {
            proof {
                assert forall|a: FileAuxData| aux_bytes(a) != data@ by {
                    assert(aux_bytes(a)[i as int] == aux_prefix()[i as int]);
                }
            }
            return Err(StoreError::MalformedAuxData);
        }
        i += 1;
    }
    if data[83] != 34u8 || data[84] != 125u8 {
        proof {
            assert forall|a: FileAuxData| aux_bytes(a) != data@ by {
                assert(aux_bytes(a)[83] == 34u8);
                assert(aux_bytes(a)[84] == 125u8);
            }
        }
        return Err(StoreError::MalformedAuxData);
    }
    let mut hash = [0u8; 32];
    let mut j: usize = 0;
    while j < 32
        invariant
            j <= 32,
            data@.len() == 85,
            forall|k: int|
                0 <= k < j ==> hex_digit(#[trigger] hash@[k] / 16) == data@[19 + 2 * k]
                    && hex_digit(hash@[k] % 16) == data@[19 + 2 * k + 1],
        decreases 32 - j,
    {
        let hi = hex_value_of(data[19 + 2 * j]);
        let lo = hex_value_of(data[19 + 2 * j + 1]);
        match (hi, lo) {
            (Some(h), Some(l)) => {
                let b: u8 = h * 16 + l;
                assert(b / 16 == h && b % 16 == l);
                hash[j] = b;
            },
            _ => {
                proof {
                    assert forall|a: FileAuxData| aux_bytes(a) != data@ by {
                        let hex = hex_of(a.content_sha256.bytes@);
                        let x = a.content_sha256.bytes@[j as int];
                        assert(aux_bytes(a)[19 + 2 * j] == hex[2 * j]);
                        assert(aux_bytes(a)[19 + 2 * j + 1] == hex[2 * j + 1]);
                        assert(hex[2 * j] == hex_digit(x / 16));
                        assert(hex[2 * j + 1] == hex_digit(x % 16));
                        assert(x / 16 < 16 && x % 16 < 16);
                    }
                }
                return Err(StoreError::MalformedAuxData);
            },
        }
        j += 1;
    }
    let aux = FileAuxData { content_sha256: Sha256 { bytes: hash } };
    proof {
        let hex = hex_of(hash@);
        assert forall|k: int| 0 <= k < 85 implies aux_bytes(aux)[k] == data@[k] by {
            if 19 <= k < 83 {
                let m = (k - 19) / 2;
                assert(aux_bytes(aux)[k] == hex[k - 19]);
                assert(0 <= m < 32);
                assert(hex_digit(hash@[m] / 16) == data@[19 + 2 * m]);
                if (k - 19) % 2 == 0 {
                    assert(k == 19 + 2 * m);
                } else {
                    assert(k == 19 + 2 * m + 1);
                }
            } else if k < 19 {
                assert(aux_bytes(aux)[k] == aux_prefix()[k]);
            } else {
                assert(aux_bytes(aux)[k] == aux_suffix()[k - 83]);
            }
        }
        assert(aux_bytes(aux) =~= data@);
        lemma_aux_bytes_injective(aux, parsed_aux(data@));
    }
    Ok(aux)
}

/// Reading back what was written gives the data that was written.
pub proof fn lemma_aux_roundtrip(aux: FileAuxData)
    ensures
        aux_parses(aux_bytes(aux)),
        parsed_aux(aux_bytes(aux)) == aux,
{
    lemma_aux_bytes_injective(aux, parsed_aux(aux_bytes(aux)));
}

/// The stored form of auxiliary data determines the data.
pub proof fn lemma_aux_bytes_injective(a: FileAuxData, b: FileAuxData)
    requires
        aux_bytes(a) == aux_bytes(b),
    ensures
        a == b,
{
    let x = a.content_sha256.bytes@;
    let y = b.content_sha256.bytes@;
    assert forall|k: int| 0 <= k < 32 implies x[k] == y[k] by {
        assert(aux_bytes(a)[19 + 2 * k] == hex_of(x)[2 * k]);
        assert(aux_bytes(b)[19 + 2 * k] == hex_of(y)[2 * k]);
        assert(aux_bytes(a)[19 + 2 * k + 1] == hex_of(x)[2 * k + 1]);
        assert(aux_bytes(b)[19 + 2 * k + 1] == hex_of(y)[2 * k + 1]);
        assert(hex_digit(x[k] / 16) == hex_digit(y[k] / 16));
        assert(hex_digit(x[k] % 16) == hex_digit(y[k] % 16));
        assert(x[k] / 16 < 16 && y[k] / 16 < 16);
    }
    assert(x =~= y);
    lemma_sha256_ext(a.content_sha256, b.content_sha256);
}

} // verus!
