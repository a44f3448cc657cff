//! Tests of the event decoder on whole frames: commits with their CAR
//! blobs, the other event kinds, and each error variant.

use std::str::FromStr;

use atrium_api::app::bsky::feed::post;
use atrium_api::com::atproto::sync::subscribe_repos::{
    AccountData, CommitData, IdentityData, RepoOpData,
};
use atrium_api::types::string::{Datetime, Did, Tid};
use atrium_api::types::{CidLink, Object};
use bluesky_firehose_stream::frame::Frame;
use bluesky_firehose_stream::{
    Error, FirehoseMessage, FirehoseMessageKind, Operation, OperationKind, OperationMeta, Record,
};
use ipld_core::ipld::Ipld;
use sha2::{Digest, Sha256};

fn serialized_data(s: &str) -> Vec<u8> {
    assert!(s.len() % 2 == 0);
    let b2u = |b: u8| match b {
        b'0'..=b'9' => b - b'0',
        b'a'..=b'f' => b - b'a' + 10,
        _ => unreachable!(),
    };
    s.as_bytes()
        .chunks(2)
        .map(|b| (b2u(b[0]) << 4) + b2u(b[1]))
        .collect()
}

fn varint(mut v: u64) -> Vec<u8> {
    let mut out = Vec::new();
    while v >= 0x80 {
        out.push((v % 0x80 + 0x80) as u8);
        v /= 0x80;
    }
    out.push(v as u8);
    out
}

/// A CIDv1 (dag-cbor, sha2-256) of the given payload.
fn cid_of(data: &[u8]) -> cid::Cid {
    let digest = Sha256::digest(data);
    let mut bytes: Vec<u8> = vec![0x01, 0x71, 0x12, 0x20];
    bytes.extend_from_slice(&digest);
    cid::Cid::try_from(bytes.as_slice()).expect("valid content identifier")
}

/// A CAR v1 blob holding the given blocks.
fn car_blob(blocks: &[(cid::Cid, Vec<u8>)]) -> Vec<u8> {
    let roots: Vec<Ipld> = blocks.iter().map(|(c, _)| Ipld::Link(*c)).collect();
    let mut map = std::collections::BTreeMap::new();
    map.insert("roots".to_string(), Ipld::List(roots));
    map.insert("version".to_string(), Ipld::Integer(1));
    let header = serde_ipld_dagcbor::to_vec(&Ipld::Map(map)).expect("header encodes");
    let mut out = varint(header.len() as u64);
    out.extend_from_slice(&header);
    for (c, data) in blocks {
        let cb = c.to_bytes();
        out.extend_from_slice(&varint((cb.len() + data.len()) as u64));
        out.extend_from_slice(&cb);
        out.extend_from_slice(data);
    }
    out
}

const TEST_DID: &str = "did:plc:ewvi7nxzyoun6zhxrhs64oiz";
const TEST_REV: &str = "3jzfcijpj2z2a";

/// A `#commit` frame payload with the given operations and CAR blob.
fn commit_payload(ops: Vec<Object<RepoOpData>>, blocks: Vec<u8>) -> Vec<u8> {
    let data = CommitData {
        blobs: Vec::new(),
        blocks,
        commit: CidLink(cid_of(b"commit-root")),
        ops,
        prev_data: None,
        rebase: false,
        repo: Did::new(TEST_DID.to_string()).expect("valid did"),
        rev: Tid::new(TEST_REV.to_string()).expect("valid tid"),
        seq: 42,
        since: None,
        time: Datetime::from_str("2024-01-01T00:00:00.000Z").expect("valid datetime"),
        too_big: false,
    };
    let body = serde_ipld_dagcbor::to_vec(&Object::from(data)).expect("commit encodes");
    // {"op": 1, "t": "#commit"}
    let mut payload = serialized_data("a2626f700161746723636f6d6d6974");
    payload.extend_from_slice(&body);
    payload
}

fn create_op(path: &str, cid: Option<cid::Cid>) -> Object<RepoOpData> {
    op_with_action("create", path, cid)
}

fn op_with_action(action: &str, path: &str, cid: Option<cid::Cid>) -> Object<RepoOpData> {
    Object::from(RepoOpData {
        action: action.to_string(),
        cid: cid.map(CidLink),
        path: path.to_string(),
        prev: None,
    })
}

fn post_record_bytes(text: &str) -> Vec<u8> {
    let rec = post::RecordData {
        created_at: Datetime::from_str("2024-01-01T00:00:00.000Z").expect("valid datetime"),
        embed: None,
        entities: None,
        facets: None,
        labels: None,
        langs: None,
        reply: None,
        tags: None,
        text: text.to_string(),
    };
    serde_ipld_dagcbor::to_vec(&Object::from(rec)).expect("record encodes")
}

fn decode(payload: &[u8]) -> Result<FirehoseMessage, Error> {
    let frame = Frame::try_from(payload).expect("frame decodes");
    FirehoseMessage::try_from(frame)
}

#[test]
fn minimal_commit_with_one_create() {
    let block = post_record_bytes("hello world");
    let block_cid = cid_of(&block);
    let payload = commit_payload(
        vec![create_op("app.bsky.feed.post/3kabcdefghij2", Some(block_cid))],
        car_blob(&[(block_cid, block.clone())]),
    );
    let message = decode(&payload).expect("commit decodes");
    match message {
        FirehoseMessage::Commit { did, rev, time, operations, commit } => {
            assert_eq!(did, TEST_DID);
            assert_eq!(rev, TEST_REV);
            assert_eq!(time, "2024-01-01T00:00:00.000Z");
            assert_eq!(commit.seq, 42);
            assert_eq!(commit.commit.text, cid_of(b"commit-root").to_string());
            assert_eq!(commit.prev_data, None);
            assert_eq!(commit.blobs, vec![]);
            assert_eq!(
                operations,
                vec![Operation::Create {
                    operation_meta: OperationMeta {
                        collection: "app.bsky.feed.post".to_string(),
                        rkey: "3kabcdefghij2".to_string(),
                    },
                    record: Record::Post(block),
                    cid: block_cid.to_string(),
                }]
            );
        },
        other => panic!("expected a commit, got {:?}", other.kind().as_str()),
    }
}

#[test]
fn commit_with_a_delete_op() {
    let payload = commit_payload(
        vec![op_with_action("delete", "app.bsky.feed.post/xyz", None)],
        car_blob(&[]),
    );
    let message = decode(&payload).expect("commit decodes");
    match message {
        FirehoseMessage::Commit { operations, .. } => {
            assert_eq!(
                operations,
                vec![Operation::Delete(OperationMeta {
                    collection: "app.bsky.feed.post".to_string(),
                    rkey: "xyz".to_string(),
                })]
            );
        },
        other => panic!("expected a commit, got {:?}", other.kind().as_str()),
    }
}

#[test]
fn commit_with_missing_cid_on_a_create_is_skipped() {
    let payload = commit_payload(
        vec![create_op("app.bsky.feed.post/3kabcdefghij2", None)],
        car_blob(&[]),
    );
    let message = decode(&payload).expect("commit decodes");
    match message {
        FirehoseMessage::Commit { operations, .. } => {
            assert_eq!(operations, vec![]);
        },
        other => panic!("expected a commit, got {:?}", other.kind().as_str()),
    }
}

#[test]
fn commit_with_an_unknown_collection_yields_unknown_record() {
    let mut map = std::collections::BTreeMap::new();
    map.insert("hello".to_string(), Ipld::String("world".to_string()));
    let block = serde_ipld_dagcbor::to_vec(&Ipld::Map(map)).expect("block encodes");
    let block_cid = cid_of(&block);
    let payload = commit_payload(
        vec![create_op("app.bsky.feed.newthing/abc", Some(block_cid))],
        car_blob(&[(block_cid, block.clone())]),
    );
    let message = decode(&payload).expect("commit decodes");
    match message {
        FirehoseMessage::Commit { operations, .. } => {
            assert_eq!(
                operations,
                vec![Operation::Create {
                    operation_meta: OperationMeta {
                        collection: "app.bsky.feed.newthing".to_string(),
                        rkey: "abc".to_string(),
                    },
                    record: Record::Unknown(block),
                    cid: block_cid.to_string(),
                }]
            );
        },
        other => panic!("expected a commit, got {:?}", other.kind().as_str()),
    }
}

#[test]
fn delete_count_matches_delete_actions() {
    let block = post_record_bytes("counted");
    let block_cid = cid_of(&block);
    let payload = commit_payload(
        vec![
            op_with_action("delete", "app.bsky.feed.post/a", None),
            create_op("app.bsky.feed.post/b", Some(block_cid)),
            op_with_action("delete", "app.bsky.graph.follow/c", None),
        ],
        car_blob(&[(block_cid, block)]),
    );
    let message = decode(&payload).expect("commit decodes");
    match message {
        FirehoseMessage::Commit { operations, .. } => {
            let deletes = operations
                .iter()
                .filter(|o| matches!(o.kind(), OperationKind::Delete))
                .count();
            assert_eq!(deletes, 2);
            assert_eq!(operations.len(), 3);
            assert!(matches!(operations[0].kind(), OperationKind::Delete));
            assert!(matches!(operations[1].kind(), OperationKind::Create));
            assert!(matches!(operations[2].kind(), OperationKind::Delete));
        },
        other => panic!("expected a commit, got {:?}", other.kind().as_str()),
    }
}

#[test]
fn update_op_yields_update_operation() {
    let block = post_record_bytes("updated");
    let block_cid = cid_of(&block);
    let payload = commit_payload(
        vec![op_with_action("update", "app.bsky.feed.post/k", Some(block_cid))],
        car_blob(&[(block_cid, block.clone())]),
    );
    let message = decode(&payload).expect("commit decodes");
    match message {
        FirehoseMessage::Commit { operations, .. } => {
            assert_eq!(
                operations,
                vec![Operation::Update {
                    operation_meta: OperationMeta {
                        collection: "app.bsky.feed.post".to_string(),
                        rkey: "k".to_string(),
                    },
                    record: Record::Post(block),
                    cid: block_cid.to_string(),
                }]
            );
        },
        other => panic!("expected a commit, got {:?}", other.kind().as_str()),
    }
}

#[test]
fn no_block_for_commit_is_an_error() {
    let block = post_record_bytes("present");
    let absent_cid = cid_of(b"absent");
    let payload = commit_payload(
        vec![create_op("app.bsky.feed.post/k", Some(absent_cid))],
        car_blob(&[(cid_of(&block), block)]),
    );
    match decode(&payload) {
        Err(Error::NoBlockForCommit { operation, rev, did, path }) => {
            assert_eq!(operation, "create");
            assert_eq!(rev, TEST_REV);
            assert_eq!(did, TEST_DID);
            assert_eq!(path, "app.bsky.feed.post/k");
        },
        other => panic!("expected the missing-block error, got {:?}", other),
    }
}

#[test]
fn unknown_commit_operation_is_an_error() {
    let block = post_record_bytes("salvage");
    let block_cid = cid_of(&block);
    let payload = commit_payload(
        vec![op_with_action("frobnicate", "app.bsky.feed.post/k", Some(block_cid))],
        car_blob(&[(block_cid, block.clone())]),
    );
    match decode(&payload) {
        Err(Error::UnknownCommitOperation { operation, operation_meta, record, cid }) => {
            assert_eq!(operation, "frobnicate");
            assert_eq!(operation_meta.collection, "app.bsky.feed.post");
            assert_eq!(operation_meta.rkey, "k");
            assert_eq!(record, Record::Post(block));
            assert_eq!(cid, block_cid.to_string());
        },
        other => panic!("expected the unknown-operation error, got {:?}", other),
    }
}

#[test]
fn record_that_fails_its_schema_is_an_error() {
    // a known collection whose block is not a valid record of that schema
    let block = serde_ipld_dagcbor::to_vec(&Ipld::Integer(7)).expect("block encodes");
    let block_cid = cid_of(&block);
    let payload = commit_payload(
        vec![create_op("app.bsky.feed.post/k", Some(block_cid))],
        car_blob(&[(block_cid, block)]),
    );
    assert!(matches!(decode(&payload), Err(Error::DagCborDecodeError(_, _))));
}

#[test]
fn malformed_commit_body_is_an_error() {
    // {"op": 1, "t": "#commit"} followed by garbage
    let mut payload = serialized_data("a2626f700161746723636f6d6d6974");
    payload.extend_from_slice(&[0xff, 0xff, 0xff]);
    assert!(matches!(decode(&payload), Err(Error::DagCborDecodeError(_, _))));
}

#[test]
fn malformed_car_blob_is_an_error() {
    let payload = commit_payload(
        vec![op_with_action("delete", "app.bsky.feed.post/xyz", None)],
        vec![0xff, 0xff, 0xff, 0xff],
    );
    match decode(&payload) {
        Err(Error::CarDecodeError(_, commit)) => {
            assert_eq!(commit.repo, TEST_DID);
            assert_eq!(commit.rev, TEST_REV);
        },
        other => panic!("expected the CAR error, got {:?}", other),
    }
}

#[test]
fn block_with_unknown_cid_version_is_an_error() {
    // a block whose identifier declares version 3: the CAR reader asserts
    // on this shape, so it must be refused before it is handed over
    let mut blocks = car_blob(&[]);
    blocks.push(5);  // declared block length
    blocks.extend_from_slice(&[0x03, 0x71, 0x00, 0x00, 0x00]);
    let payload = commit_payload(
        vec![op_with_action("delete", "app.bsky.feed.post/xyz", None)],
        blocks,
    );
    assert!(matches!(decode(&payload), Err(Error::CarDecodeError(_, _))));
}

#[test]
fn block_with_oversized_digest_is_an_error() {
    // a block identifier declaring a 65-byte multihash digest: above the
    // CAR reader's 64-byte buffer, so it must be refused before the call
    let mut blocks = car_blob(&[]);
    blocks.push(69);  // declared block length: 4 identifier head bytes + 65
    blocks.extend_from_slice(&[0x01, 0x71, 0x12, 0x41]);
    blocks.extend_from_slice(&[0u8; 65]);
    let payload = commit_payload(
        vec![op_with_action("delete", "app.bsky.feed.post/xyz", None)],
        blocks,
    );
    assert!(matches!(decode(&payload), Err(Error::CarDecodeError(_, _))));
}

#[test]
fn block_shorter_than_its_identifier_is_an_error() {
    // a declared block length of 10 around a 34-byte version-0 identifier:
    // the length arithmetic in the CAR reader would wrap, so it must be
    // refused before the call
    let mut blocks = car_blob(&[]);
    blocks.push(10);  // declared block length, shorter than the identifier
    blocks.extend_from_slice(&[0x12, 0x20]);
    blocks.extend_from_slice(&[7u8; 32]);
    let payload = commit_payload(
        vec![op_with_action("delete", "app.bsky.feed.post/xyz", None)],
        blocks,
    );
    assert!(matches!(decode(&payload), Err(Error::CarDecodeError(_, _))));
}

#[test]
fn version_two_container_is_an_error() {
    // the version-2 container pragma: {"version": 2} with no roots
    let blocks = serialized_data("0aa16776657273696f6e02");
    let payload = commit_payload(
        vec![op_with_action("delete", "app.bsky.feed.post/xyz", None)],
        blocks,
    );
    assert!(matches!(decode(&payload), Err(Error::CarDecodeError(_, _))));
}

#[test]
fn non_minimal_header_varint_still_decodes() {
    // the CAR reader's varints have no minimality rule; a header length
    // written on two bytes must still be accepted
    let mut blocks = car_blob(&[]);
    let hlen = blocks[0];
    assert!(hlen < 0x80);
    blocks[0] = hlen + 0x80;
    blocks.insert(1, 0x00);
    let payload = commit_payload(
        vec![op_with_action("delete", "app.bsky.feed.post/xyz", None)],
        blocks,
    );
    let message = decode(&payload).expect("commit decodes");
    assert!(matches!(message.kind(), FirehoseMessageKind::Commit));
}

#[test]
fn error_frame_is_a_frame_error() {
    let mut payload = serialized_data("a1626f7020");
    payload.push(0x00);
    let frame = Frame::try_from(payload.as_slice()).expect("frame decodes");
    assert!(matches!(FirehoseMessage::try_from(frame), Err(Error::FrameError(_))));
}

#[test]
fn frame_without_type_is_an_error() {
    // {"op": 1} with a body byte
    let mut payload = serialized_data("a1626f7001");
    payload.push(0x00);
    let frame = Frame::try_from(payload.as_slice()).expect("frame decodes");
    assert!(matches!(FirehoseMessage::try_from(frame), Err(Error::NoTypeInFrame(_))));
}

#[test]
fn unknown_frame_type_is_an_error() {
    // {"op": 1, "t": "#weird"} with a body byte
    let payload = serialized_data("a2626f70016174662377656972640a");
    let frame = Frame::try_from(payload.as_slice()).expect("frame decodes");
    match FirehoseMessage::try_from(frame) {
        Err(Error::UnknownFrameType(t, _)) => assert_eq!(t, "#weird"),
        other => panic!("expected the unknown-type error, got {:?}", other),
    }
}

#[test]
fn identity_event_carries_its_payload() {
    let data = IdentityData {
        did: Did::new(TEST_DID.to_string()).expect("valid did"),
        handle: None,
        seq: 7,
        time: Datetime::from_str("2024-01-01T00:00:00.000Z").expect("valid datetime"),
    };
    let body = serde_ipld_dagcbor::to_vec(&Object::from(data)).expect("payload encodes");
    // {"op": 1, "t": "#identity"}
    let mut payload = serialized_data("a2626f7001617469236964656e74697479");
    payload.extend_from_slice(&body);
    let message = decode(&payload).expect("identity decodes");
    assert!(matches!(message.kind(), FirehoseMessageKind::Identity));
    assert_eq!(message, FirehoseMessage::Identity(body));
}

#[test]
fn malformed_identity_payload_is_an_error() {
    let mut payload = serialized_data("a2626f7001617469236964656e74697479");
    payload.extend_from_slice(&[0xa1, 0x61, 0x78, 0x01]);  // {"x": 1} is no identity event
    assert!(matches!(decode(&payload), Err(Error::DagCborDecodeError(_, _))));
}

#[test]
fn handle_event_carries_its_payload() {
    let mut map = std::collections::BTreeMap::new();
    map.insert("seq".to_string(), Ipld::Integer(7));
    map.insert("did".to_string(), Ipld::String(TEST_DID.to_string()));
    map.insert("handle".to_string(), Ipld::String("user.example.com".to_string()));
    map.insert("time".to_string(), Ipld::String("2024-01-01T00:00:00.000Z".to_string()));
    let body = serde_ipld_dagcbor::to_vec(&Ipld::Map(map)).expect("payload encodes");
    // {"op": 1, "t": "#handle"}
    let mut payload = serialized_data("a2626f70016174672368616e646c65");
    payload.extend_from_slice(&body);
    let message = decode(&payload).expect("handle decodes");
    assert!(matches!(message.kind(), FirehoseMessageKind::Handle));
    assert_eq!(message, FirehoseMessage::Handle(body));
}

#[test]
fn handle_event_without_required_fields_is_an_error() {
    // well-formed CBOR, but no handle event: the `handle` field is absent
    let mut map = std::collections::BTreeMap::new();
    map.insert("seq".to_string(), Ipld::Integer(7));
    map.insert("did".to_string(), Ipld::String(TEST_DID.to_string()));
    map.insert("time".to_string(), Ipld::String("2024-01-01T00:00:00.000Z".to_string()));
    let body = serde_ipld_dagcbor::to_vec(&Ipld::Map(map)).expect("payload encodes");
    let mut payload = serialized_data("a2626f70016174672368616e646c65");
    payload.extend_from_slice(&body);
    assert!(matches!(decode(&payload), Err(Error::DagCborDecodeError(_, _))));
}

#[test]
fn redecoding_the_same_payload_agrees() {
    let block = post_record_bytes("again");
    let block_cid = cid_of(&block);
    let payload = commit_payload(
        vec![create_op("app.bsky.feed.post/3kabcdefghij2", Some(block_cid))],
        car_blob(&[(block_cid, block)]),
    );
    let first = decode(&payload).expect("commit decodes");
    let second = decode(&payload).expect("commit decodes");
    assert_eq!(first, second);
}

#[test]
fn one_malformed_frame_does_not_taint_the_others() {
    let block = post_record_bytes("stream");
    let block_cid = cid_of(&block);
    let good = commit_payload(
        vec![create_op("app.bsky.feed.post/3kabcdefghij2", Some(block_cid))],
        car_blob(&[(block_cid, block)]),
    );
    let mut frames: Vec<Vec<u8>> = Vec::new();
    for _ in 0..5 {
        frames.push(good.clone());
    }
    frames.push(vec![0xff, 0x00]);  // malformed payload
    for _ in 0..4 {
        frames.push(good.clone());
    }
    let mut outcomes: Vec<bool> = Vec::new();
    for payload in &frames {
        let ok = match Frame::try_from(payload.as_slice()) {
            Err(_) => false,
            Ok(frame) => FirehoseMessage::try_from(frame).is_ok(),
        };
        outcomes.push(ok);
    }
    let expected = vec![true, true, true, true, true, false, true, true, true, true];
    assert_eq!(outcomes, expected);
}

#[test]
fn follow_record_dispatches_to_its_collection() {
    let rec = atrium_api::app::bsky::graph::follow::RecordData {
        created_at: Datetime::from_str("2024-01-01T00:00:00.000Z").expect("valid datetime"),
        subject: Did::new(TEST_DID.to_string()).expect("valid did"),
    };
    let block = serde_ipld_dagcbor::to_vec(&Object::from(rec)).expect("record encodes");
    let block_cid = cid_of(&block);
    let payload = commit_payload(
        vec![create_op("app.bsky.graph.follow/3kfollowabcde", Some(block_cid))],
        car_blob(&[(block_cid, block.clone())]),
    );
    let message = decode(&payload).expect("commit decodes");
    match message {
        FirehoseMessage::Commit { operations, .. } => {
            assert_eq!(operations.len(), 1);
            match &operations[0] {
                Operation::Create { record, .. } => assert_eq!(record, &Record::Follow(block)),
                other => panic!("expected a create, got {:?}", other.kind().as_str()),
            }
        },
        other => panic!("expected a commit, got {:?}", other.kind().as_str()),
    }
}

#[test]
fn every_known_collection_validates_its_blocks() {
    // an integer is well-formed DAG-CBOR but no record of any known schema
    let block = serde_ipld_dagcbor::to_vec(&Ipld::Integer(7)).expect("block encodes");
    let block_cid = cid_of(&block);
    let collections = vec![
        "app.bsky.feed.post",
        "app.bsky.graph.follow",
        "app.bsky.graph.block",
        "app.bsky.feed.repost",
        "app.bsky.feed.like",
        "app.bsky.graph.listitem",
        "app.bsky.feed.generator",
        "app.bsky.actor.profile",
        "app.bsky.graph.list",
        "app.bsky.graph.starterpack",
    ];
    for collection in collections {
        let path = format!("{collection}/k");
        let payload = commit_payload(
            vec![create_op(&path, Some(block_cid))],
            car_blob(&[(block_cid, block.clone())]),
        );
        assert!(
            matches!(decode(&payload), Err(Error::DagCborDecodeError(_, _))),
            "collection {collection} accepted a non-record block"
        );
    }
}

#[test]
fn account_event_carries_its_payload() {
    let data = AccountData {
        active: true,
        did: Did::new(TEST_DID.to_string()).expect("valid did"),
        seq: 9,
        status: None,
        time: Datetime::from_str("2024-01-01T00:00:00.000Z").expect("valid datetime"),
    };
    let body = serde_ipld_dagcbor::to_vec(&Object::from(data)).expect("payload encodes");
    // {"op": 1, "t": "#account"}
    let mut payload = serialized_data("a2626f7001617468236163636f756e74");
    payload.extend_from_slice(&body);
    let message = decode(&payload).expect("account decodes");
    assert!(matches!(message.kind(), FirehoseMessageKind::Account));
    assert_eq!(message, FirehoseMessage::Account(body));
}

#[test]
fn malformed_account_payload_is_an_error() {
    let mut payload = serialized_data("a2626f7001617468236163636f756e74");
    payload.push(0x07);  // the integer 7 is no account event
    assert!(matches!(decode(&payload), Err(Error::DagCborDecodeError(_, _))));
}

#[test]
fn tombstone_event_carries_its_payload() {
    let mut map = std::collections::BTreeMap::new();
    map.insert("seq".to_string(), Ipld::Integer(9));
    map.insert("did".to_string(), Ipld::String(TEST_DID.to_string()));
    map.insert("time".to_string(), Ipld::String("2024-01-01T00:00:00.000Z".to_string()));
    let body = serde_ipld_dagcbor::to_vec(&Ipld::Map(map)).expect("payload encodes");
    // {"op": 1, "t": "#tombstone"}
    let mut payload = serialized_data("a2626f700161746a23746f6d6273746f6e65");
    payload.extend_from_slice(&body);
    let message = decode(&payload).expect("tombstone decodes");
    assert!(matches!(message.kind(), FirehoseMessageKind::Tombstone));
    assert_eq!(message, FirehoseMessage::Tombstone(body));
}

#[test]
fn message_kind_names() {
    assert_eq!(FirehoseMessageKind::Commit.as_str(), "commit");
    assert_eq!(FirehoseMessageKind::Handle.as_str(), "handle");
    assert_eq!(FirehoseMessageKind::Tombstone.as_str(), "tombstone");
    assert_eq!(FirehoseMessageKind::Identity.as_str(), "identity");
    assert_eq!(FirehoseMessageKind::Account.as_str(), "account");
    assert_eq!(OperationKind::Create.as_str(), "create");
    assert_eq!(OperationKind::Update.as_str(), "update");
    assert_eq!(OperationKind::Delete.as_str(), "delete");
}
