use scmstore::codec::{
    aux_from_bytes, aux_to_bytes, content_sha256, pointer_from_bytes, pointer_from_entry,
    pointer_to_bytes, strip_metadata,
};
use scmstore::error::StoreError;
use scmstore::keys::{HgId, Key, Sha256};
use scmstore::types::{Entry, FileAuxData, LfsPointersEntry, Metadata, LFS_FLAG};

fn unhex(text: &str) -> Vec<u8> {
    let digits: Vec<u8> = text
        .bytes()
        .map(|c| match c {
            b'0'..=b'9' => c - b'0',
            b'a'..=b'f' => c - b'a' + 10,
            _ => panic!("not a hex digit"),
        })
        .collect();
    digits.chunks(2).map(|p| p[0] * 16 + p[1]).collect()
}

#[test]
fn sha256_of_known_inputs() {
    assert_eq!(
        content_sha256(b"hello").bytes.to_vec(),
        unhex("2cf24dba5fb0a30e26e83b2ac5b9e29e1b161e5c1fa7425e73043362938b9824")
    );
    assert_eq!(
        content_sha256(b"").bytes.to_vec(),
        unhex("e3b0c44298fc1c149afbf4c8996fb92427ae41e4649b934ca495991b7852b855")
    );
    assert_eq!(
        content_sha256(b"abc").bytes.to_vec(),
        unhex("ba7816bf8f01cfea414140de5dae2223b00361a396177a9cb410ff61f20015ad")
    );
}

#[test]
fn sha256_is_not_the_identity() {
    let input = [7u8; 32];
    assert_ne!(content_sha256(&input).bytes, input);
}

#[test]
fn strip_metadata_without_header() {
    assert_eq!(strip_metadata(b"hello"), b"hello".to_vec());
    assert_eq!(strip_metadata(b""), Vec::<u8>::new());
    assert_eq!(strip_metadata(b"\x01"), b"\x01".to_vec());
}

#[test]
fn strip_metadata_with_header() {
    let blob = b"\x01\ncopy: a/b\ncopyrev: 0123\n\x01\nthe content";
    assert_eq!(strip_metadata(blob), b"the content".to_vec());
    // An empty header.
    assert_eq!(strip_metadata(b"\x01\n\x01\nx"), b"x".to_vec());
    // Only the first closing marker counts.
    assert_eq!(strip_metadata(b"\x01\na\x01\nb\x01\nc"), b"b\x01\nc".to_vec());
}

#[test]
fn strip_metadata_unclosed_header_is_content() {
    let blob = b"\x01\ncopy: a/b\n";
    assert_eq!(strip_metadata(blob), blob.to_vec());
    assert_eq!(strip_metadata(b"\x01\n"), b"\x01\n".to_vec());
    assert_eq!(strip_metadata(b"\x01\n\x01"), b"\x01\n\x01".to_vec());
}

#[test]
fn pointer_stored_form() {
    let ptr = LfsPointersEntry::new(
        HgId::from_bytes([3u8; 20]),
        0x0102,
        Sha256::from_bytes([0xabu8; 32]),
    );
    let bytes = pointer_to_bytes(&ptr);
    let mut expected = vec![0xabu8; 32];
    expected.extend_from_slice(&[0x02, 0x01, 0, 0, 0, 0, 0, 0]);
    assert_eq!(bytes, expected);
}

#[test]
fn pointer_round_trip() {
    let hgid = HgId::from_bytes([9u8; 20]);
    let ptr = LfsPointersEntry::new(hgid, u64::MAX - 5, content_sha256(b"some content"));
    let back = pointer_from_bytes(&pointer_to_bytes(&ptr), hgid).unwrap();
    assert_eq!(back.hgid.bytes, ptr.hgid.bytes);
    assert_eq!(back.size, ptr.size);
    assert_eq!(back.sha256.bytes, ptr.sha256.bytes);
}

#[test]
fn pointer_of_wrong_length_is_malformed() {
    let hgid = HgId::from_bytes([0u8; 20]);
    assert_eq!(pointer_from_bytes(b"", hgid).unwrap_err(), StoreError::MalformedPointer);
    assert_eq!(pointer_from_bytes(&[1u8; 39], hgid).unwrap_err(), StoreError::MalformedPointer);
    assert_eq!(pointer_from_bytes(&[1u8; 41], hgid).unwrap_err(), StoreError::MalformedPointer);
    assert!(pointer_from_bytes(&[1u8; 40], hgid).is_ok());
}

#[test]
fn aux_data_stored_form() {
    let mut hash = [0u8; 32];
    for (i, b) in hash.iter_mut().enumerate() {
        *b = (i as u8) * 8 + 1;
    }
    let aux = FileAuxData { content_sha256: Sha256::from_bytes(hash) };
    let text = String::from_utf8(aux_to_bytes(&aux)).unwrap();
    assert_eq!(
        text,
        "{\"content_sha256\":\"0109111921293139414951596169717981899199a1a9b1b9c1c9d1d9e1e9f1f9\"}"
    );
}

#[test]
fn aux_data_round_trip() {
    let aux = FileAuxData { content_sha256: content_sha256(b"hello") };
    let back = aux_from_bytes(&aux_to_bytes(&aux)).unwrap();
    assert_eq!(back.content_sha256.bytes, aux.content_sha256.bytes);
}

#[test]
fn aux_data_malformed() {
    let aux = FileAuxData { content_sha256: content_sha256(b"hello") };
    let good = aux_to_bytes(&aux);
    assert_eq!(aux_from_bytes(b"").unwrap_err(), StoreError::MalformedAuxData);
    assert_eq!(aux_from_bytes(b"{}").unwrap_err(), StoreError::MalformedAuxData);
    // One byte short.
    assert_eq!(aux_from_bytes(&good[..84]).unwrap_err(), StoreError::MalformedAuxData);
    // A digit that is not lower-case hexadecimal.
    let mut upper = good.clone();
    upper[19] = b'A';
    assert_eq!(aux_from_bytes(&upper).unwrap_err(), StoreError::MalformedAuxData);
    let mut bad = good.clone();
    bad[30] = b'g';
    assert_eq!(aux_from_bytes(&bad).unwrap_err(), StoreError::MalformedAuxData);
    // A wrong field name.
    let mut name = good.clone();
    name[2] = b'x';
    assert_eq!(aux_from_bytes(&name).unwrap_err(), StoreError::MalformedAuxData);
    // A wrong end.
    let mut end = good.clone();
    end[84] = b']';
    assert_eq!(aux_from_bytes(&end).unwrap_err(), StoreError::MalformedAuxData);
}

#[test]
fn metadata_lfs_flag() {
    assert!(!Metadata::empty().is_lfs());
    assert!(!Metadata { size: Some(3), flags: Some(0) }.is_lfs());
    assert!(Metadata { size: None, flags: Some(LFS_FLAG) }.is_lfs());
    assert!(Metadata { size: None, flags: Some(LFS_FLAG | 1) }.is_lfs());
    assert!(!Metadata { size: None, flags: Some(0x1000) }.is_lfs());
    assert_eq!(LFS_FLAG, 0x2000);
}

#[test]
fn error_messages() {
    assert_eq!(StoreError::NoContent.message(), "no content available");
    assert_eq!(
        StoreError::NoResults.message(),
        "no results found in either incomplete or complete"
    );
    assert_eq!(
        StoreError::DeltaBaseUnsupported.message(),
        "Deltas with non-None base are not supported"
    );
}

#[test]
fn hash_from_slice() {
    assert!(HgId::from_slice(&[1u8; 19]).is_none());
    assert!(HgId::from_slice(&[1u8; 21]).is_none());
    assert_eq!(HgId::from_slice(&[1u8; 20]).unwrap().bytes, [1u8; 20]);
    assert!(Sha256::from_slice(&[1u8; 31]).is_none());
    assert_eq!(Sha256::from_slice(&[2u8; 32]).unwrap().bytes, [2u8; 32]);
    assert_eq!(HgId::null_id().bytes, [0u8; 20]);
}

#[test]
fn pointer_from_entry_needs_the_flag() {
    let hgid = HgId::from_bytes([4u8; 20]);
    let ptr = LfsPointersEntry::new(hgid, 11, content_sha256(b"hello world"));
    let key = Key::new(b"p".to_vec(), hgid);
    let flagged = Entry::new(
        key.clone(),
        pointer_to_bytes(&ptr),
        Metadata { size: None, flags: Some(LFS_FLAG) },
    );
    let read = pointer_from_entry(&flagged).unwrap();
    assert_eq!(read.size, 11);
    assert_eq!(read.hgid.bytes, hgid.bytes);
    assert_eq!(read.sha256.bytes, ptr.sha256.bytes);
    let plain = Entry::new(key.clone(), pointer_to_bytes(&ptr), Metadata::empty());
    assert_eq!(pointer_from_entry(&plain).unwrap_err(), StoreError::NotLfsPointer);
    let garbage = Entry::new(key, b"x".to_vec(), Metadata { size: None, flags: Some(LFS_FLAG) });
    assert_eq!(pointer_from_entry(&garbage).unwrap_err(), StoreError::MalformedPointer);
}
