//! Tests of path splitting and of the content-identifier bridge.

use bluesky_firehose_stream::text::split_path;
use bluesky_firehose_stream::{Cid, CidError, CidOld};
use sha2::{Digest, Sha256};

fn sha256_multihash(data: &[u8]) -> Vec<u8> {
    let digest = Sha256::digest(data);
    let mut mh: Vec<u8> = vec![0x12, 0x20];
    mh.extend_from_slice(&digest);
    mh
}

#[test]
fn path_splits_on_the_first_slash() {
    let (collection, rkey) = split_path("app.bsky.feed.post/3kabcdefghij2");
    assert_eq!(collection, "app.bsky.feed.post");
    assert_eq!(rkey, "3kabcdefghij2");
}

#[test]
fn path_without_slash_is_all_collection() {
    let (collection, rkey) = split_path("app.bsky.feed.post");
    assert_eq!(collection, "app.bsky.feed.post");
    assert_eq!(rkey, "");
}

#[test]
fn path_with_trailing_slash_has_empty_rkey() {
    let (collection, rkey) = split_path("app.bsky.feed.post/");
    assert_eq!(collection, "app.bsky.feed.post");
    assert_eq!(rkey, "");
}

#[test]
fn path_splits_only_on_the_first_slash() {
    let (collection, rkey) = split_path("a/b/c");
    assert_eq!(collection, "a");
    assert_eq!(rkey, "b/c");
}

#[test]
fn empty_path_splits_to_empty_parts() {
    let (collection, rkey) = split_path("");
    assert_eq!(collection, "");
    assert_eq!(rkey, "");
}

#[test]
fn converting_raw_parts_keeps_the_encoding() {
    let old = CidOld { version: 1, codec: 0x71, multihash: sha256_multihash(b"some block") };
    let old_bytes = old.to_bytes();
    let converted = Cid::try_from(old).expect("well-formed identifier");
    assert_eq!(converted.to_bytes(), old_bytes);
    // the converted encoding agrees with the content-addressing library's
    let reference = cid::Cid::try_from(old_bytes.as_slice()).expect("reference parses");
    assert_eq!(converted.to_bytes(), reference.to_bytes());
}

#[test]
fn converting_version_zero_keeps_the_encoding() {
    let old = CidOld { version: 0, codec: 0x70, multihash: sha256_multihash(b"genesis") };
    let old_bytes = old.to_bytes();
    let converted = Cid::try_from(old).expect("well-formed identifier");
    assert_eq!(converted.to_bytes(), old_bytes);
    assert_eq!(old_bytes[0], 0x12);
    assert_eq!(old_bytes.len(), 34);
}

#[test]
fn equality_is_preserved_by_conversion() {
    let a1 = CidOld { version: 1, codec: 0x71, multihash: sha256_multihash(b"a") };
    let a2 = CidOld { version: 1, codec: 0x71, multihash: sha256_multihash(b"a") };
    let b = CidOld { version: 1, codec: 0x71, multihash: sha256_multihash(b"b") };
    let ca1 = Cid::try_from(a1).expect("well-formed identifier");
    let ca2 = Cid::try_from(a2).expect("well-formed identifier");
    let cb = Cid::try_from(b).expect("well-formed identifier");
    assert!(ca1 == ca2);
    assert!(ca1 != cb);
    assert_eq!(ca1.to_bytes(), ca2.to_bytes());
    assert_ne!(ca1.to_bytes(), cb.to_bytes());
}

#[test]
fn truncated_multihash_is_rejected() {
    let mut mh = sha256_multihash(b"short");
    mh.truncate(10);
    let old = CidOld { version: 1, codec: 0x71, multihash: mh };
    assert_eq!(Cid::try_from(old), Err(CidError::InvalidMultihash));
}

#[test]
fn oversized_digest_is_rejected() {
    // varint code 0x12, declared size 65: above the 64-byte bound
    let mut mh: Vec<u8> = vec![0x12, 65];
    mh.extend_from_slice(&[0u8; 65]);
    let old = CidOld { version: 1, codec: 0x71, multihash: mh };
    assert_eq!(Cid::try_from(old), Err(CidError::InvalidMultihash));
}

#[test]
fn unknown_version_is_rejected() {
    let old = CidOld { version: 2, codec: 0x71, multihash: sha256_multihash(b"x") };
    assert_eq!(Cid::try_from(old), Err(CidError::InvalidVersion));
}

#[test]
fn version_zero_with_wrong_codec_is_rejected() {
    let old = CidOld { version: 0, codec: 0x71, multihash: sha256_multihash(b"x") };
    assert_eq!(Cid::try_from(old), Err(CidError::InvalidV0));
}

#[test]
fn version_zero_with_wrong_hash_is_rejected() {
    // blake-style code 0xb220 instead of sha2-256
    let mut mh: Vec<u8> = vec![0xa0, 0x64, 0x20];
    mh.extend_from_slice(&[7u8; 32]);
    let old = CidOld { version: 0, codec: 0x70, multihash: mh };
    assert_eq!(Cid::try_from(old), Err(CidError::InvalidV0));
}
