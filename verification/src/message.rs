//! The typed events of the firehose and the decoder that produces them.
//!
//! The decoder is a state-free function from a frame to a
//! `FirehoseMessage`. For a `#commit` frame it decodes the commit
//! envelope, opens the embedded CAR blob, and walks the ordered operation
//! list, resolving each operation's block by content identifier and
//! dispatching on the collection NSID; the other event kinds carry their
//! validated payload bytes unchanged.

use vstd::prelude::*;
use vstd::slice::slice_to_vec;
use vstd::utf8::valid_utf8;
use crate::car::{car_wire_ok, spec_car_wire_ok};
use crate::cbor::{lemma_items_end_bounds, read_head, skip_items, spec_head, spec_items_end};
use crate::cid::spec_cid_wf;
use crate::commit::{
    Block,
    BlockView,
    CommitEnvelope,
    CommitEnvelopeView,
    RepoOpView,
    convert_blocks,
    decode_commit,
    find_block,
    read_car,
    spec_blocks_wf,
    spec_car_blocks_of,
    spec_commit_of,
    spec_convert_blocks,
    spec_find_block,
};
use crate::frame::{
    ErrorFrame,
    Frame,
    FrameView,
    MessageFrame,
    find_key,
    keys_text,
    spec_find_key,
    spec_keys_text,
    string_from_utf8,
};
use crate::records::{Record, RecordView, decode_record, spec_record_of};
use crate::text::{spec_split_path, split_path, str_eq};

verus! {

/// The five event kinds of the `subscribeRepos` stream.
#[derive(Debug, Clone, Copy)]
pub enum FirehoseMessageKind {
    Commit,
    Handle,
    Tombstone,
    Identity,
    Account,
}

impl FirehoseMessageKind {
    /// The lower-case wire name of this event kind.
    pub open spec fn spec_as_str(self) -> Seq<char> {
        match self {
            FirehoseMessageKind::Commit => "commit"@,
            FirehoseMessageKind::Handle => "handle"@,
            FirehoseMessageKind::Tombstone => "tombstone"@,
            FirehoseMessageKind::Identity => "identity"@,
            FirehoseMessageKind::Account => "account"@,
        }
    }

    pub fn as_str(&self) -> (r: &str)
        ensures
            r@ == self.spec_as_str(),
    {
        match self {
            FirehoseMessageKind::Commit => "commit",
            FirehoseMessageKind::Handle => "handle",
            FirehoseMessageKind::Tombstone => "tombstone",
            FirehoseMessageKind::Identity => "identity",
            FirehoseMessageKind::Account => "account",
        }
    }
}

/// The three kinds of repository operation a commit can carry.
#[derive(Debug, Clone, Copy)]
pub enum OperationKind {
    Create,
    Update,
    Delete,
}

impl OperationKind {
    /// The lower-case wire name of this operation kind.
    pub open spec fn spec_as_str(self) -> Seq<char> {
        match self {
            OperationKind::Create => "create"@,
            OperationKind::Update => "update"@,
            OperationKind::Delete => "delete"@,
        }
    }

    pub fn as_str(&self) -> (r: &str)
        ensures
            r@ == self.spec_as_str(),
    {
        match self {
            OperationKind::Create => "create",
            OperationKind::Update => "update",
            OperationKind::Delete => "delete",
        }
    }
}

/// Collection NSID and record key of one operation, split off its path.
#[derive(Debug, Clone, PartialEq)]
pub struct OperationMeta {
    pub collection: String,
    pub rkey: String,
}

pub struct OperationMetaView {
    pub collection: Seq<char>,
    pub rkey: Seq<char>,
}

impl View for OperationMeta {
    type V = OperationMetaView;

    open spec fn view(&self) -> OperationMetaView {
        OperationMetaView { collection: self.collection@, rkey: self.rkey@ }
    }
}

/// One emitted repository operation.
#[derive(Debug, Clone, PartialEq)]
pub enum Operation {
    Create { operation_meta: OperationMeta, record: Record, cid: String },
    Update { operation_meta: OperationMeta, record: Record, cid: String },
    Delete(OperationMeta),
}

pub enum OperationView {
    Create { operation_meta: OperationMetaView, record: RecordView, cid: Seq<char> },
    Update { operation_meta: OperationMetaView, record: RecordView, cid: Seq<char> },
    Delete(OperationMetaView),
}

impl View for Operation {
    type V = OperationView;

    open spec fn view(&self) -> OperationView {
        match self {
            Operation::Create { operation_meta, record, cid } => OperationView::Create {
                operation_meta: operation_meta@,
                record: record@,
                cid: cid@,
            },
            Operation::Update { operation_meta, record, cid } => OperationView::Update {
                operation_meta: operation_meta@,
                record: record@,
                cid: cid@,
            },
            Operation::Delete(m) => OperationView::Delete(m@),
        }
    }
}

impl Operation {
    pub open spec fn spec_kind(self) -> OperationKind {
        match self {
            Operation::Create { .. } => OperationKind::Create,
            Operation::Update { .. } => OperationKind::Update,
            Operation::Delete(_) => OperationKind::Delete,
        }
    }

    /// The kind of this operation.
    pub fn kind(&self) -> (r: OperationKind)
        ensures
            r == self.spec_kind(),
    {
        match self {
            Operation::Create { .. } => OperationKind::Create,
            Operation::Update { .. } => OperationKind::Update,
            Operation::Delete(_) => OperationKind::Delete,
        }
    }
}

/// One decoded firehose event.
#[derive(Debug, PartialEq)]
pub enum FirehoseMessage {
    Commit {
        did: String,
        rev: String,
        time: String,
        operations: Vec<Operation>,
        commit: CommitEnvelope,
    },
    Handle(Vec<u8>),
    Tombstone(Vec<u8>),
    Identity(Vec<u8>),
    Account(Vec<u8>),
}

pub enum FirehoseMessageView {
    Commit {
        did: Seq<char>,
        rev: Seq<char>,
        time: Seq<char>,
        operations: Seq<OperationView>,
        commit: CommitEnvelopeView,
    },
    Handle(Seq<u8>),
    Tombstone(Seq<u8>),
    Identity(Seq<u8>),
    Account(Seq<u8>),
}

impl View for FirehoseMessage {
    type V = FirehoseMessageView;

    open spec fn view(&self) -> FirehoseMessageView {
        match self {
            FirehoseMessage::Commit { did, rev, time, operations, commit } => {
                FirehoseMessageView::Commit {
                    did: did@,
                    rev: rev@,
                    time: time@,
                    operations: operations@.map_values(|o: Operation| o@),
                    commit: commit@,
                }
            },
            FirehoseMessage::Handle(b) => FirehoseMessageView::Handle(b@),
            FirehoseMessage::Tombstone(b) => FirehoseMessageView::Tombstone(b@),
            FirehoseMessage::Identity(b) => FirehoseMessageView::Identity(b@),
            FirehoseMessage::Account(b) => FirehoseMessageView::Account(b@),
        }
    }
}

impl FirehoseMessage {
    pub open spec fn spec_kind(self) -> FirehoseMessageKind {
        match self {
            FirehoseMessage::Commit { .. } => FirehoseMessageKind::Commit,
            FirehoseMessage::Handle(_) => FirehoseMessageKind::Handle,
            FirehoseMessage::Tombstone(_) => FirehoseMessageKind::Tombstone,
            FirehoseMessage::Identity(_) => FirehoseMessageKind::Identity,
            FirehoseMessage::Account(_) => FirehoseMessageKind::Account,
        }
    }

    /// The kind of this event.
    pub fn kind(&self) -> (r: FirehoseMessageKind)
        ensures
            r == self.spec_kind(),
    {
        match self {
            FirehoseMessage::Commit { .. } => FirehoseMessageKind::Commit,
            FirehoseMessage::Handle(_) => FirehoseMessageKind::Handle,
            FirehoseMessage::Tombstone(_) => FirehoseMessageKind::Tombstone,
            FirehoseMessage::Identity(_) => FirehoseMessageKind::Identity,
            FirehoseMessage::Account(_) => FirehoseMessageKind::Account,
        }
    }
}

/// Errors of the event decoder. Per-frame: the stream stays usable after
/// each of them.
#[derive(Debug)]
pub enum Error {
    /// A message frame whose schema tag is none of the five known ones.
    UnknownFrameType(String, MessageFrame),
    /// A message frame without a schema tag.
    NoTypeInFrame(MessageFrame),
    /// The relay sent an error frame.
    FrameError(ErrorFrame),
    /// A DAG-CBOR payload (envelope or record block) failed to decode; the
    /// string is the decoder's message.
    DagCborDecodeError(String, MessageFrame),
    /// The commit's CAR blob failed to decode, or holds a malformed block
    /// identifier; the string is the decoder's message.
    CarDecodeError(String, CommitEnvelope),
    /// A create or update operation whose identifier matches no block of
    /// the commit's own CAR blob.
    NoBlockForCommit { operation: String, rev: String, did: String, path: String },
    /// An operation whose action is none of create, update and delete.
    /// Carries the already-decoded record so the caller loses no data.
    UnknownCommitOperation {
        operation: String,
        operation_meta: OperationMeta,
        record: Record,
        cid: String,
    },
}

/// Specification-level error of the event decoder. The rendered messages
/// of the decoding libraries are left open; every other field is pinned.
pub enum SpecErr {
    UnknownFrameType(Seq<char>, Seq<u8>),
    NoTypeInFrame(Seq<u8>),
    FrameError,
    DagCbor(Seq<u8>),
    CarDecode(CommitEnvelopeView),
    NoBlock { operation: Seq<char>, rev: Seq<char>, did: Seq<char>, path: Seq<char> },
    UnknownOp {
        operation: Seq<char>,
        operation_meta: OperationMetaView,
        record: RecordView,
        cid: Seq<char>,
    },
}

/// How a returned error corresponds to the specification-level error: same
/// variant, same pinned fields.
pub open spec fn spec_err_matches(e: Error, k: SpecErr) -> bool {
    match (e, k) {
        (Error::UnknownFrameType(s, mf), SpecErr::UnknownFrameType(t, b)) => s@ == t && mf.body@
            == b,
        (Error::NoTypeInFrame(mf), SpecErr::NoTypeInFrame(b)) => mf.body@ == b,
        (Error::FrameError(_), SpecErr::FrameError) => true,
        (Error::DagCborDecodeError(_, mf), SpecErr::DagCbor(b)) => mf.body@ == b,
        (Error::CarDecodeError(_, c), SpecErr::CarDecode(cv)) => c@ == cv,
        (
            Error::NoBlockForCommit { operation, rev, did, path },
            SpecErr::NoBlock { operation: o2, rev: r2, did: d2, path: p2 },
        ) => operation@ == o2 && rev@ == r2 && did@ == d2 && path@ == p2,
        (
            Error::UnknownCommitOperation { operation, operation_meta, record, cid },
            SpecErr::UnknownOp { operation: o2, operation_meta: m2, record: rec2, cid: c2 },
        ) => operation@ == o2 && operation_meta@ == m2 && record@ == rec2 && cid@ == c2,
        _ => false,
    }
}

/// Whether the bytes decode as a `subscribeRepos` identity event payload;
/// a function of the bytes alone.
pub uninterp spec fn spec_identity_parses(b: Seq<u8>) -> bool;

/// Whether the bytes decode as a `subscribeRepos` account event payload;
/// a function of the bytes alone.
pub uninterp spec fn spec_account_parses(b: Seq<u8>) -> bool;

/// Relies on serde_ipld_dagcbor::from_slice for the `subscribeRepos`
/// identity event payload: success is a function of the bytes alone.
#[verifier::external_body]
fn parses_identity(b: &[u8]) -> (r: bool)
    ensures
        r == spec_identity_parses(b@),
{
    serde_ipld_dagcbor::from_slice::<atrium_api::com::atproto::sync::subscribe_repos::Identity>(
        b,
    ).is_ok()
}

/// Relies on serde_ipld_dagcbor::from_slice for the `subscribeRepos`
/// account event payload: success is a function of the bytes alone.
#[verifier::external_body]
fn parses_account(b: &[u8]) -> (r: bool)
    ensures
        r == spec_account_parses(b@),
{
    serde_ipld_dagcbor::from_slice::<atrium_api::com::atproto::sync::subscribe_repos::Account>(
        b,
    ).is_ok()
}

/// The bytes of the key `"seq"`.
pub open spec fn spec_seq_key() -> Seq<u8> {
    seq![0x73u8, 0x65u8, 0x71u8]
}

/// The bytes of the key `"did"`.
pub open spec fn spec_did_key() -> Seq<u8> {
    seq![0x64u8, 0x69u8, 0x64u8]
}

/// The bytes of the key `"handle"`.
pub open spec fn spec_handle_key() -> Seq<u8> {
    seq![0x68u8, 0x61u8, 0x6eu8, 0x64u8, 0x6cu8, 0x65u8]
}

/// The bytes of the key `"time"`.
pub open spec fn spec_time_key() -> Seq<u8> {
    seq![0x74u8, 0x69u8, 0x6du8, 0x65u8]
}

/// One complete CBOR map item covering the whole payload, with text keys:
/// its entry count and the position where the entries start.
pub open spec fn spec_map_shell(b: Seq<u8>) -> Option<(nat, int)> {
    match spec_head(b, 0) {
        None => None,
        Some((n, ae)) => if b[0] / 32 == 5 && spec_items_end(b, ae, 2 * n) == Some(
            b.len() as int,
        ) && spec_keys_text(b, ae, n) {
            Some((n, ae))
        } else {
            None
        },
    }
}

/// The payload map binds `key` to a text item with valid UTF-8 content.
pub open spec fn spec_text_field(b: Seq<u8>, key: Seq<u8>) -> bool {
    match spec_map_shell(b) {
        None => false,
        Some((n, ae)) => match spec_find_key(b, ae, n, key) {
            None => false,
            Some(vp) => match spec_head(b, vp) {
                None => false,
                Some((tlen, tae)) => b[vp] / 32 == 3 && tae + tlen <= b.len() && valid_utf8(
                    b.subrange(tae, tae + tlen),
                ),
            },
        },
    }
}

/// The payload map binds `key` to an integer that fits a signed 64-bit
/// value.
pub open spec fn spec_int_field(b: Seq<u8>, key: Seq<u8>) -> bool {
    match spec_map_shell(b) {
        None => false,
        Some((n, ae)) => match spec_find_key(b, ae, n, key) {
            None => false,
            Some(vp) => match spec_head(b, vp) {
                None => false,
                Some((v, _)) => (b[vp] / 32 == 0 || b[vp] / 32 == 1) && v
                    < 0x8000000000000000,
            },
        },
    }
}

/// The retired `#handle` event payload: the schema library no longer
/// defines a typed decoder for it, so the required fields of its schema
/// are checked here — one map carrying an integer `seq` and the `did`,
/// `handle` and `time` strings. The string-format refinements of the
/// retired schema (DID and timestamp syntax) are not checked.
pub open spec fn spec_handle_event_ok(b: Seq<u8>) -> bool {
    &&& spec_int_field(b, spec_seq_key())
    &&& spec_text_field(b, spec_did_key())
    &&& spec_text_field(b, spec_handle_key())
    &&& spec_text_field(b, spec_time_key())
}

/// The retired `#tombstone` event payload: one map carrying an integer
/// `seq` and the `did` and `time` strings, checked as for `#handle`.
pub open spec fn spec_tombstone_event_ok(b: Seq<u8>) -> bool {
    &&& spec_int_field(b, spec_seq_key())
    &&& spec_text_field(b, spec_did_key())
    &&& spec_text_field(b, spec_time_key())
}

/// Reads the payload's map shell.
fn map_shell(b: &[u8]) -> (r: Option<(u64, usize)>)
    ensures
        match r {
            Some((n, ae)) => spec_map_shell(b@) == Some((n as nat, ae as int)) && ae <= b@.len()
                && n <= usize::MAX,
            None => spec_map_shell(b@) is None,
        },
{
    let (n, ae) = match read_head(b, 0) {
        None => {
            return None;
        },
        Some(v) => v,
    };
    if b[0] / 32 != 5 {
        return None;
    }
    if n > ((b.len() - ae) / 2) as u64 {
        proof {
            lemma_items_end_bounds(b@, ae as int, 2 * n as nat);
        }
        return None;
    }
    match skip_items(b, ae, 2 * (n as usize)) {
        Some(e) if e == b.len() => {},
        _ => {
            return None;
        },
    }
    if !keys_text(b, ae, n as usize) {
        return None;
    }
    Some((n, ae))
}

/// Checks that the payload map binds `key` to a valid-UTF-8 text item.
fn text_field(b: &[u8], key: &[u8]) -> (r: bool)
    ensures
        r == spec_text_field(b@, key@),
{
    let (n, ae) = match map_shell(b) {
        None => {
            return false;
        },
        Some(v) => v,
    };
    let vp = match find_key(b, ae, n as usize, key) {
        None => {
            return false;
        },
        Some(vp) => vp,
    };
    let (tlen, tae) = match read_head(b, vp) {
        None => {
            return false;
        },
        Some(h) => h,
    };
    if b[vp] / 32 != 3 {
        return false;
    }
    if tlen > (b.len() - tae) as u64 {
        return false;
    }
    let tb = slice_to_vec(&b[tae..tae + tlen as usize]);
    string_from_utf8(tb).is_some()
}

/// Checks that the payload map binds `key` to an integer fitting 64 bits.
fn int_field(b: &[u8], key: &[u8]) -> (r: bool)
    ensures
        r == spec_int_field(b@, key@),
{
    let (n, ae) = match map_shell(b) {
        None => {
            return false;
        },
        Some(v) => v,
    };
    let vp = match find_key(b, ae, n as usize, key) {
        None => {
            return false;
        },
        Some(vp) => vp,
    };
    let (v, _) = match read_head(b, vp) {
        None => {
            return false;
        },
        Some(h) => h,
    };
    (b[vp] / 32 == 0 || b[vp] / 32 == 1) && v < 0x8000000000000000
}

/// Checks the retired `#handle` payload schema.
fn handle_event_ok(b: &[u8]) -> (r: bool)
    ensures
        r == spec_handle_event_ok(b@),
{
    let mut seq_key: Vec<u8> = Vec::new();
    seq_key.push(0x73);
    seq_key.push(0x65);
    seq_key.push(0x71);
    let mut did_key: Vec<u8> = Vec::new();
    did_key.push(0x64);
    did_key.push(0x69);
    did_key.push(0x64);
    let mut handle_key: Vec<u8> = Vec::new();
    handle_key.push(0x68);
    handle_key.push(0x61);
    handle_key.push(0x6e);
    handle_key.push(0x64);
    handle_key.push(0x6c);
    handle_key.push(0x65);
    let mut time_key: Vec<u8> = Vec::new();
    time_key.push(0x74);
    time_key.push(0x69);
    time_key.push(0x6d);
    time_key.push(0x65);
    proof {
        assert(seq_key@ =~= spec_seq_key());
        assert(did_key@ =~= spec_did_key());
        assert(handle_key@ =~= spec_handle_key());
        assert(time_key@ =~= spec_time_key());
    }
    int_field(b, seq_key.as_slice()) && text_field(b, did_key.as_slice()) && text_field(
        b,
        handle_key.as_slice(),
    ) && text_field(b, time_key.as_slice())
}

/// Checks the retired `#tombstone` payload schema.
fn tombstone_event_ok(b: &[u8]) -> (r: bool)
    ensures
        r == spec_tombstone_event_ok(b@),
{
    let mut seq_key: Vec<u8> = Vec::new();
    seq_key.push(0x73);
    seq_key.push(0x65);
    seq_key.push(0x71);
    let mut did_key: Vec<u8> = Vec::new();
    did_key.push(0x64);
    did_key.push(0x69);
    did_key.push(0x64);
    let mut time_key: Vec<u8> = Vec::new();
    time_key.push(0x74);
    time_key.push(0x69);
    time_key.push(0x6d);
    time_key.push(0x65);
    proof {
        assert(seq_key@ =~= spec_seq_key());
        assert(did_key@ =~= spec_did_key());
        assert(time_key@ =~= spec_time_key());
    }
    int_field(b, seq_key.as_slice()) && text_field(b, did_key.as_slice()) && text_field(
        b,
        time_key.as_slice(),
    )
}

/// Collection and record key of an operation, as split off its path.
pub open spec fn spec_src_meta(op: RepoOpView) -> OperationMetaView {
    OperationMetaView {
        collection: spec_split_path(op.path).0,
        rkey: spec_split_path(op.path).1,
    }
}

/// Outcome of decoding one operation descriptor.
pub enum OpOutcome {
    Emit(OperationView),
    Skip,
    Fail(SpecErr),
}

/// Decoding one operation descriptor against the commit's block table:
/// a delete is emitted directly; a non-delete without an identifier is
/// skipped; otherwise the identifier must resolve to a block whose bytes
/// decode under the collection's schema, and the action selects create,
/// update, or the unknown-action error.
pub open spec fn spec_decode_op(
    body: Seq<u8>,
    did: Seq<char>,
    rev: Seq<char>,
    op: RepoOpView,
    blocks: Seq<BlockView>,
) -> OpOutcome {
    let meta = spec_src_meta(op);
    if op.action == "delete"@ {
        OpOutcome::Emit(OperationView::Delete(meta))
    } else {
        match op.cid {
            None => OpOutcome::Skip,
            Some(oc) => match spec_find_block(blocks, oc.cid) {
                None => OpOutcome::Fail(
                    SpecErr::NoBlock { operation: op.action, rev, did, path: op.path },
                ),
                Some(bl) => match spec_record_of(meta.collection, bl.data) {
                    None => OpOutcome::Fail(SpecErr::DagCbor(body)),
                    Some(rec) => if op.action == "create"@ {
                        OpOutcome::Emit(
                            OperationView::Create {
                                operation_meta: meta,
                                record: rec,
                                cid: oc.text,
                            },
                        )
                    } else if op.action == "update"@ {
                        OpOutcome::Emit(
                            OperationView::Update {
                                operation_meta: meta,
                                record: rec,
                                cid: oc.text,
                            },
                        )
                    } else {
                        OpOutcome::Fail(
                            SpecErr::UnknownOp {
                                operation: op.action,
                                operation_meta: meta,
                                record: rec,
                                cid: oc.text,
                            },
                        )
                    },
                },
            },
        }
    }
}

/// Decoding the whole operation list in input order: emitted operations
/// keep their order, skipped ones leave no slot, and the first failing
/// operation fails the whole commit.
pub open spec fn spec_decode_ops(
    body: Seq<u8>,
    did: Seq<char>,
    rev: Seq<char>,
    ops: Seq<RepoOpView>,
    blocks: Seq<BlockView>,
) -> Result<Seq<OperationView>, SpecErr>
    decreases ops.len(),
{
    if ops.len() == 0 {
        Ok(Seq::empty())
    } else {
        match spec_decode_op(body, did, rev, ops[0], blocks) {
            OpOutcome::Fail(e) => Err(e),
            OpOutcome::Skip => spec_decode_ops(body, did, rev, ops.drop_first(), blocks),
            OpOutcome::Emit(o) => match spec_decode_ops(body, did, rev, ops.drop_first(), blocks) {
                Err(e) => Err(e),
                Ok(rest) => Ok(seq![o] + rest),
            },
        }
    }
}

/// Decoding a `#commit` frame body: the DAG-CBOR commit envelope, then —
/// after the CAR framing check that guards the reader — its CAR block
/// table (every block identifier must be well formed), then the operation
/// walk.
pub open spec fn spec_decode_commit_body(body: Seq<u8>) -> Result<FirehoseMessageView, SpecErr> {
    match spec_commit_of(body) {
        None => Err(SpecErr::DagCbor(body)),
        Some(c) => if !spec_car_wire_ok(c.blocks) {
            Err(SpecErr::CarDecode(c))
        } else {
            match spec_car_blocks_of(c.blocks) {
                None => Err(SpecErr::CarDecode(c)),
                Some(raw) => if !spec_blocks_wf(raw) {
                    Err(SpecErr::CarDecode(c))
                } else {
                    match spec_decode_ops(body, c.repo, c.rev, c.ops, spec_convert_blocks(raw)) {
                        Err(e) => Err(e),
                        Ok(ops) => Ok(
                            FirehoseMessageView::Commit {
                                did: c.repo,
                                rev: c.rev,
                                time: c.time,
                                operations: ops,
                                commit: c,
                            },
                        ),
                    }
                },
            }
        },
    }
}

/// Decoding a frame into an event: an error frame and a missing schema tag
/// are errors; the five known tags dispatch on the body; anything else is
/// the unknown-frame-type error.
pub open spec fn spec_decode_frame(f: FrameView) -> Result<FirehoseMessageView, SpecErr> {
    match f {
        FrameView::Error => Err(SpecErr::FrameError),
        FrameView::Message(None, body) => Err(SpecErr::NoTypeInFrame(body)),
        FrameView::Message(Some(t), body) => {
            if t == "#commit"@ {
                spec_decode_commit_body(body)
            } else if t == "#handle"@ {
                if spec_handle_event_ok(body) {
                    Ok(FirehoseMessageView::Handle(body))
                } else {
                    Err(SpecErr::DagCbor(body))
                }
            } else if t == "#tombstone"@ {
                if spec_tombstone_event_ok(body) {
                    Ok(FirehoseMessageView::Tombstone(body))
                } else {
                    Err(SpecErr::DagCbor(body))
                }
            } else if t == "#identity"@ {
                if spec_identity_parses(body) {
                    Ok(FirehoseMessageView::Identity(body))
                } else {
                    Err(SpecErr::DagCbor(body))
                }
            } else if t == "#account"@ {
                if spec_account_parses(body) {
                    Ok(FirehoseMessageView::Account(body))
                } else {
                    Err(SpecErr::DagCbor(body))
                }
            } else {
                Err(SpecErr::UnknownFrameType(t, body))
            }
        },
    }
}

/// Decodes a `#commit` frame body into the commit event.
#[verifier::loop_isolation(false)]
fn decode_commit_frame(mf: MessageFrame) -> (r: Result<FirehoseMessage, Error>)
    ensures
        match r {
            Ok(m) => spec_decode_commit_body(mf.body@) == Ok::<FirehoseMessageView, SpecErr>(m@),
            Err(e) => spec_decode_commit_body(mf.body@) matches Err(k) && spec_err_matches(e, k),
        },
{
    let ghost bodyv = mf.body@;
    let commit = match decode_commit(mf.body.as_slice()) {
        Err(msg) => {
            return Err(Error::DagCborDecodeError(msg, mf));
        },
        Ok(c) => c,
    };
    let ghost cv = commit@;
    if !car_wire_ok(commit.blocks.as_slice()) {
        return Err(
            Error::CarDecodeError("the CAR framing of the blocks field is malformed".to_owned(), commit),
        );
    }
    let raw = match read_car(commit.blocks.as_slice()) {
        Err(msg) => {
            return Err(Error::CarDecodeError(msg, commit));
        },
        Ok(v) => v,
    };
    let blocks = match convert_blocks(raw) {
        Err(_) => {
            return Err(
                Error::CarDecodeError(
                    "a block identifier in the CAR data is malformed".to_owned(),
                    commit,
                ),
            );
        },
        Ok(v) => v,
    };
    let ghost blocksv = blocks@.map_values(|b: Block| b@);
    let mut operations: Vec<Operation> = Vec::new();
    proof {
        assert(cv.ops.skip(0) =~= cv.ops);
        assert(operations@.map_values(|o: Operation| o@) =~= Seq::<OperationView>::empty());
        match spec_decode_ops(bodyv, cv.repo, cv.rev, cv.ops, blocksv) {
            Ok(rest) => {
                assert(Seq::<OperationView>::empty() + rest =~= rest);
            },
            Err(_) => {},
        }
    }
    let mut idx: usize = 0;
    while idx < commit.ops.len()
        invariant
            idx <= commit.ops@.len(),
            spec_decode_ops(bodyv, cv.repo, cv.rev, cv.ops, blocksv) == (match spec_decode_ops(
                bodyv,
                cv.repo,
                cv.rev,
                cv.ops.skip(idx as int),
                blocksv,
            ) {
                Ok(rest) => Ok(operations@.map_values(|o: Operation| o@) + rest),
                Err(e) => Err::<Seq<OperationView>, SpecErr>(e),
            }),
        decreases commit.ops@.len() - idx,
    {
        let ghost opv = cv.ops[idx as int];
        let ghost remaining = cv.ops.skip(idx as int);
        proof {
            assert(opv == commit.ops@[idx as int]@);
            assert(remaining[0] == opv);
            assert(remaining.drop_first() =~= cv.ops.skip(idx + 1));
        }
        let op = &commit.ops[idx];
        let (collection, rkey) = split_path(op.path.as_str());
        let ghost built = operations@.map_values(|o: Operation| o@);
        if str_eq(op.action.as_str(), "delete") {
            let o = Operation::Delete(OperationMeta { collection, rkey });
            let ghost ov = o@;
            let ghost og = o;
            let ghost ops_before = operations@;
            operations.push(o);
            proof {
                assert(operations@ == ops_before.push(og));
                lemma_built_push(ops_before, og, ov);
                lemma_emit_step(bodyv, cv.repo, cv.rev, remaining, blocksv, built, ov);
            }
            idx = idx + 1;
        } else {
            match &op.cid {
                None => {
                    idx = idx + 1;
                },
                Some(oc) => {
                    match find_block(&blocks, &oc.cid) {
                        None => {
                            return Err(
                                Error::NoBlockForCommit {
                                    operation: op.action.clone(),
                                    rev: commit.rev.clone(),
                                    did: commit.repo.clone(),
                                    path: op.path.clone(),
                                },
                            );
                        },
                        Some(bl) => {
                            match decode_record(collection.as_str(), bl.data.as_slice()) {
                                None => {
                                    return Err(
                                        Error::DagCborDecodeError(
                                            "a record block does not decode under its collection's schema".to_owned(),
                                            mf,
                                        ),
                                    );
                                },
                                Some(record) => {
                                    let meta = OperationMeta { collection, rkey };
                                    let o = if str_eq(op.action.as_str(), "create") {
                                        Operation::Create {
                                            operation_meta: meta,
                                            record,
                                            cid: oc.text.clone(),
                                        }
                                    } else if str_eq(op.action.as_str(), "update") {
                                        Operation::Update {
                                            operation_meta: meta,
                                            record,
                                            cid: oc.text.clone(),
                                        }
                                    } else {
                                        return Err(
                                            Error::UnknownCommitOperation {
                                                operation: op.action.clone(),
                                                operation_meta: meta,
                                                record,
                                                cid: oc.text.clone(),
                                            },
                                        );
                                    };
                                    let ghost ov = o@;
                                    let ghost og = o;
                                    let ghost ops_before = operations@;
                                    operations.push(o);
                                    proof {
                                        assert(operations@ == ops_before.push(og));
                                        lemma_built_push(ops_before, og, ov);
                                        lemma_emit_step(
                                            bodyv,
                                            cv.repo,
                                            cv.rev,
                                            remaining,
                                            blocksv,
                                            built,
                                            ov,
                                        );
                                    }
                                    idx = idx + 1;
                                },
                            }
                        },
                    }
                },
            }
        }
    }
    proof {
        assert(cv.ops.skip(cv.ops.len() as int) =~= Seq::<RepoOpView>::empty());
        assert(operations@.map_values(|o: Operation| o@) + Seq::<OperationView>::empty()
            =~= operations@.map_values(|o: Operation| o@));
    }
    Ok(
        FirehoseMessage::Commit {
            did: commit.repo.clone(),
            rev: commit.rev.clone(),
            time: commit.time.clone(),
            operations,
            commit,
        },
    )
}

/// Pushing an operation appends its view to the built views.
proof fn lemma_built_push(before: Seq<Operation>, o: Operation, ov: OperationView)
    requires
        o@ == ov,
    ensures
        before.push(o).map_values(|x: Operation| x@) == before.map_values(|x: Operation| x@)
            + seq![ov],
{
    Seq::lemma_push_map_commute(before, |x: Operation| x@, o);
    assert(before.map_values(|x: Operation| x@).push(ov) =~= before.map_values(|x: Operation| x@)
        + seq![ov]);
}

/// One emitted operation moves the walk one step: prepending the emitted
/// view commutes with appending it to what was built.
proof fn lemma_emit_step(
    body: Seq<u8>,
    did: Seq<char>,
    rev: Seq<char>,
    remaining: Seq<RepoOpView>,
    blocks: Seq<BlockView>,
    built: Seq<OperationView>,
    ov: OperationView,
)
    requires
        remaining.len() > 0,
        spec_decode_op(body, did, rev, remaining[0], blocks) == OpOutcome::Emit(ov),
    ensures
        (match spec_decode_ops(body, did, rev, remaining, blocks) {
            Ok(rest) => Ok::<Seq<OperationView>, SpecErr>(built + rest),
            Err(e) => Err(e),
        }) == (match spec_decode_ops(body, did, rev, remaining.drop_first(), blocks) {
            Ok(rest) => Ok::<Seq<OperationView>, SpecErr>((built + seq![ov]) + rest),
            Err(e) => Err(e),
        }),
{
    match spec_decode_ops(body, did, rev, remaining.drop_first(), blocks) {
        Ok(rest) => {
            assert(built + (seq![ov] + rest) =~= (built + seq![ov]) + rest);
        },
        Err(_) => {},
    }
}

/// Number of deletes among emitted operations.
pub open spec fn spec_count_emitted_deletes(ops: Seq<OperationView>) -> nat
    decreases ops.len(),
{
    if ops.len() == 0 {
        0
    } else {
        (if ops[0] is Delete {
            1nat
        } else {
            0nat
        }) + spec_count_emitted_deletes(ops.drop_first())
    }
}

/// Number of operation descriptors whose action is `delete`.
pub open spec fn spec_count_delete_actions(ops: Seq<RepoOpView>) -> nat
    decreases ops.len(),
{
    if ops.len() == 0 {
        0
    } else {
        (if ops[0].action == "delete"@ {
            1nat
        } else {
            0nat
        }) + spec_count_delete_actions(ops.drop_first())
    }
}

/// For every commit that decodes, the emitted operations hold exactly as
/// many deletes as the commit's operation list holds `delete` actions.
pub proof fn lemma_delete_count(
    body: Seq<u8>,
    did: Seq<char>,
    rev: Seq<char>,
    ops: Seq<RepoOpView>,
    blocks: Seq<BlockView>,
    res: Seq<OperationView>,
)
    requires
        spec_decode_ops(body, did, rev, ops, blocks) == Ok::<Seq<OperationView>, SpecErr>(res),
    ensures
        spec_count_emitted_deletes(res) == spec_count_delete_actions(ops),
    decreases ops.len(),
{
    if ops.len() == 0 {
        assert(res =~= Seq::<OperationView>::empty());
    } else {
        match spec_decode_op(body, did, rev, ops[0], blocks) {
            OpOutcome::Fail(_) => {},
            OpOutcome::Skip => {
                lemma_delete_count(body, did, rev, ops.drop_first(), blocks, res);
            },
            OpOutcome::Emit(o) => {
                let rest = spec_decode_ops(body, did, rev, ops.drop_first(), blocks)->Ok_0;
                lemma_delete_count(body, did, rev, ops.drop_first(), blocks, rest);
                assert(res == seq![o] + rest);
                assert(res[0] == o);
                assert(res.drop_first() =~= rest);
                if ops[0].action == "delete"@ {
                    assert(o is Delete);
                } else {
                    assert(!(o is Delete));
                }
            },
        }
    }
}

/// `xs` appears inside `ys` in order, without reordering.
pub open spec fn spec_is_subseq_of<T>(xs: Seq<T>, ys: Seq<T>) -> bool
    decreases ys.len(),
{
    if xs.len() == 0 {
        true
    } else if ys.len() == 0 {
        false
    } else {
        (xs[0] == ys[0] && spec_is_subseq_of(xs.drop_first(), ys.drop_first()))
            || spec_is_subseq_of(xs, ys.drop_first())
    }
}

/// Collection and record key an emitted operation carries.
pub open spec fn spec_op_meta(o: OperationView) -> OperationMetaView {
    match o {
        OperationView::Create { operation_meta, .. } => operation_meta,
        OperationView::Update { operation_meta, .. } => operation_meta,
        OperationView::Delete(m) => m,
    }
}

/// The emitted operations keep the commit's input order: projected to
/// their collection and record key, they form a subsequence of the
/// operation descriptors in input order.
pub proof fn lemma_operation_order_is_a_subsequence(
    body: Seq<u8>,
    did: Seq<char>,
    rev: Seq<char>,
    ops: Seq<RepoOpView>,
    blocks: Seq<BlockView>,
    res: Seq<OperationView>,
)
    requires
        spec_decode_ops(body, did, rev, ops, blocks) == Ok::<Seq<OperationView>, SpecErr>(res),
    ensures
        spec_is_subseq_of(
            res.map_values(|o: OperationView| spec_op_meta(o)),
            ops.map_values(|op: RepoOpView| spec_src_meta(op)),
        ),
    decreases ops.len(),
{
    let xs = res.map_values(|o: OperationView| spec_op_meta(o));
    let ys = ops.map_values(|op: RepoOpView| spec_src_meta(op));
    if ops.len() == 0 {
        assert(res =~= Seq::<OperationView>::empty());
    } else {
        assert(ys.drop_first() =~= ops.drop_first().map_values(|op: RepoOpView| spec_src_meta(op)));
        match spec_decode_op(body, did, rev, ops[0], blocks) {
            OpOutcome::Fail(_) => {},
            OpOutcome::Skip => {
                lemma_operation_order_is_a_subsequence(
                    body,
                    did,
                    rev,
                    ops.drop_first(),
                    blocks,
                    res,
                );
                if xs.len() > 0 {
                    assert(spec_is_subseq_of(xs, ys.drop_first()));
                }
            },
            OpOutcome::Emit(o) => {
                let rest = spec_decode_ops(body, did, rev, ops.drop_first(), blocks)->Ok_0;
                lemma_operation_order_is_a_subsequence(
                    body,
                    did,
                    rev,
                    ops.drop_first(),
                    blocks,
                    rest,
                );
                assert(res == seq![o] + rest);
                assert(res[0] == o);
                assert(spec_op_meta(o) == spec_src_meta(ops[0]));
                assert(xs.drop_first() =~= rest.map_values(|x: OperationView| spec_op_meta(x)));
                assert(xs[0] == ys[0]);
            },
        }
    }
}

/// Whether an emitted create or update is accounted for by some operation
/// descriptor: its identifier resolves to a block of the table, the block's
/// bytes decode under the collection's schema to exactly the emitted
/// record, and the emitted cid string is the identifier's text.
pub open spec fn spec_emitted_resolves(
    o: OperationView,
    ops: Seq<RepoOpView>,
    blocks: Seq<BlockView>,
) -> bool {
    match o {
        OperationView::Delete(_) => true,
        OperationView::Create { operation_meta, record, cid } => exists|j: int|
            0 <= j < ops.len() && #[trigger] spec_op_resolves_to(
                ops[j],
                blocks,
                operation_meta,
                record,
                cid,
            ),
        OperationView::Update { operation_meta, record, cid } => exists|j: int|
            0 <= j < ops.len() && #[trigger] spec_op_resolves_to(
                ops[j],
                blocks,
                operation_meta,
                record,
                cid,
            ),
    }
}

pub open spec fn spec_op_resolves_to(
    op: RepoOpView,
    blocks: Seq<BlockView>,
    meta: OperationMetaView,
    record: RecordView,
    cid: Seq<char>,
) -> bool {
    &&& op.cid is Some
    &&& meta == spec_src_meta(op)
    &&& cid == op.cid.unwrap().text
    &&& spec_find_block(blocks, op.cid.unwrap().cid) matches Some(bl) && spec_record_of(
        spec_src_meta(op).collection,
        bl.data,
    ) == Some(record)
}

/// Every emitted create or update resolved its block out of the commit's
/// own table, and its record is the block's schema-decoded payload; a
/// delete resolves nothing.
pub proof fn lemma_creates_and_updates_resolve_blocks(
    body: Seq<u8>,
    did: Seq<char>,
    rev: Seq<char>,
    ops: Seq<RepoOpView>,
    blocks: Seq<BlockView>,
    res: Seq<OperationView>,
)
    requires
        spec_decode_ops(body, did, rev, ops, blocks) == Ok::<Seq<OperationView>, SpecErr>(res),
    ensures
        forall|i: int|
            0 <= i < res.len() ==> #[trigger] spec_emitted_resolves(res[i], ops, blocks),
    decreases ops.len(),
{
    if ops.len() == 0 {
        assert(res =~= Seq::<OperationView>::empty());
    } else {
        let tail = ops.drop_first();
        match spec_decode_op(body, did, rev, ops[0], blocks) {
            OpOutcome::Fail(_) => {},
            OpOutcome::Skip => {
                lemma_creates_and_updates_resolve_blocks(body, did, rev, tail, blocks, res);
                assert forall|i: int| 0 <= i < res.len() implies #[trigger] spec_emitted_resolves(
                    res[i],
                    ops,
                    blocks,
                ) by {
                    lemma_resolves_weaken(res[i], ops, blocks);
                }
            },
            OpOutcome::Emit(o) => {
                let rest = spec_decode_ops(body, did, rev, tail, blocks)->Ok_0;
                lemma_creates_and_updates_resolve_blocks(body, did, rev, tail, blocks, rest);
                assert(res == seq![o] + rest);
                assert forall|i: int| 0 <= i < res.len() implies #[trigger] spec_emitted_resolves(
                    res[i],
                    ops,
                    blocks,
                ) by {
                    if i == 0 {
                        assert(res[0] == o);
                        match o {
                            OperationView::Delete(_) => {},
                            OperationView::Create { operation_meta, record, cid } => {
                                assert(spec_op_resolves_to(
                                    ops[0],
                                    blocks,
                                    operation_meta,
                                    record,
                                    cid,
                                ));
                            },
                            OperationView::Update { operation_meta, record, cid } => {
                                assert(spec_op_resolves_to(
                                    ops[0],
                                    blocks,
                                    operation_meta,
                                    record,
                                    cid,
                                ));
                            },
                        }
                    } else {
                        assert(res[i] == rest[i - 1]);
                        assert(spec_emitted_resolves(rest[i - 1], tail, blocks));
                        lemma_resolves_weaken(res[i], ops, blocks);
                    }
                }
            },
        }
    }
}

/// A witness among the later descriptors is a witness among all of them.
proof fn lemma_resolves_weaken(o: OperationView, ops: Seq<RepoOpView>, blocks: Seq<BlockView>)
    requires
        ops.len() > 0,
        spec_emitted_resolves(o, ops.drop_first(), blocks),
    ensures
        spec_emitted_resolves(o, ops, blocks),
{
    match o {
        OperationView::Delete(_) => {},
        OperationView::Create { operation_meta, record, cid } => {
            let j = choose|j: int|
                0 <= j < ops.drop_first().len() && #[trigger] spec_op_resolves_to(
                    ops.drop_first()[j],
                    blocks,
                    operation_meta,
                    record,
                    cid,
                );
            assert(ops.drop_first()[j] == ops[j + 1]);
            assert(spec_op_resolves_to(ops[j + 1], blocks, operation_meta, record, cid));
        },
        OperationView::Update { operation_meta, record, cid } => {
            let j = choose|j: int|
                0 <= j < ops.drop_first().len() && #[trigger] spec_op_resolves_to(
                    ops.drop_first()[j],
                    blocks,
                    operation_meta,
                    record,
                    cid,
                );
            assert(ops.drop_first()[j] == ops[j + 1]);
            assert(spec_op_resolves_to(ops[j + 1], blocks, operation_meta, record, cid));
        },
    }
}

/// The frame's schema tag and the decoded message's kind agree one-to-one
/// on the five known tags.
pub proof fn lemma_kind_matches_tag(t: Seq<char>, body: Seq<u8>, m: FirehoseMessageView)
    requires
        spec_decode_frame(FrameView::Message(Some(t), body)) == Ok::<
            FirehoseMessageView,
            SpecErr,
        >(m),
    ensures
        t == "#commit"@ ==> m is Commit,
        t == "#handle"@ ==> m is Handle,
        t == "#tombstone"@ ==> m is Tombstone,
        t == "#identity"@ ==> m is Identity,
        t == "#account"@ ==> m is Account,
{
    reveal_strlit("#commit");
    reveal_strlit("#handle");
    reveal_strlit("#tombstone");
    reveal_strlit("#identity");
    reveal_strlit("#account");
    // the five tags differ pairwise already in their second character
    assert("#commit"@[1] == 'c' && "#handle"@[1] == 'h' && "#tombstone"@[1] == 't'
        && "#identity"@[1] == 'i' && "#account"@[1] == 'a');
}

/// Decoding is a function of the frame alone: re-decoding the same payload
/// yields structurally equal messages.
pub proof fn lemma_redecoding_agrees(
    f: FrameView,
    r1: Result<FirehoseMessageView, SpecErr>,
    r2: Result<FirehoseMessageView, SpecErr>,
)
    requires
        r1 == spec_decode_frame(f),
        r2 == spec_decode_frame(f),
    ensures
        r1 == r2,
{
}

/// A non-delete operation without an identifier is skipped: it emits
/// nothing and does not fail the commit.
pub proof fn lemma_missing_cid_is_skipped(
    body: Seq<u8>,
    did: Seq<char>,
    rev: Seq<char>,
    op: RepoOpView,
    blocks: Seq<BlockView>,
)
    requires
        op.action != "delete"@,
        op.cid is None,
    ensures
        spec_decode_op(body, did, rev, op, blocks) == OpOutcome::Skip,
{
}

/// An operation whose action is unknown, on a block that resolves and
/// decodes, is an error that carries the decoded record.
pub proof fn lemma_unknown_action_is_an_error(
    body: Seq<u8>,
    did: Seq<char>,
    rev: Seq<char>,
    op: RepoOpView,
    blocks: Seq<BlockView>,
)
    requires
        op.action != "delete"@,
        op.action != "create"@,
        op.action != "update"@,
        op.cid is Some,
        spec_find_block(blocks, op.cid.unwrap().cid) matches Some(bl) && spec_record_of(
            spec_src_meta(op).collection,
            bl.data,
        ) is Some,
    ensures
        spec_decode_op(body, did, rev, op, blocks) == OpOutcome::Fail(
            SpecErr::UnknownOp {
                operation: op.action,
                operation_meta: spec_src_meta(op),
                record: spec_record_of(
                    spec_src_meta(op).collection,
                    spec_find_block(blocks, op.cid.unwrap().cid).unwrap().data,
                ).unwrap(),
                cid: op.cid.unwrap().text,
            },
        ),
{
}

impl FirehoseMessage {
    /// Decodes a frame into its typed event.
    pub fn try_from(frame: Frame) -> (r: Result<FirehoseMessage, Error>)
        ensures
            match r {
                Ok(m) => spec_decode_frame(frame@) == Ok::<FirehoseMessageView, SpecErr>(m@),
                Err(e) => spec_decode_frame(frame@) matches Err(k) && spec_err_matches(e, k),
            },
    {
        let (t, mf) = match frame {
            Frame::Error(ef) => {
                return Err(Error::FrameError(ef));
            },
            Frame::Message(None, mf) => {
                return Err(Error::NoTypeInFrame(mf));
            },
            Frame::Message(Some(t), mf) => (t, mf),
        };
        if str_eq(t.as_str(), "#commit") {
            decode_commit_frame(mf)
        } else if str_eq(t.as_str(), "#handle") {
            if handle_event_ok(mf.body.as_slice()) {
                Ok(FirehoseMessage::Handle(mf.body))
            } else {
                Err(
                    Error::DagCborDecodeError(
                        "the event payload does not decode as a handle event".to_owned(),
                        mf,
                    ),
                )
            }
        } else if str_eq(t.as_str(), "#tombstone") {
            if tombstone_event_ok(mf.body.as_slice()) {
                Ok(FirehoseMessage::Tombstone(mf.body))
            } else {
                Err(
                    Error::DagCborDecodeError(
                        "the event payload does not decode as a tombstone event".to_owned(),
                        mf,
                    ),
                )
            }
        } else if str_eq(t.as_str(), "#identity") {
            if parses_identity(mf.body.as_slice()) {
                Ok(FirehoseMessage::Identity(mf.body))
            } else {
                Err(
                    Error::DagCborDecodeError(
                        "the event payload does not decode as an identity event".to_owned(),
                        mf,
                    ),
                )
            }
        } else if str_eq(t.as_str(), "#account") {
            if parses_account(mf.body.as_slice()) {
                Ok(FirehoseMessage::Account(mf.body))
            } else {
                Err(
                    Error::DagCborDecodeError(
                        "the event payload does not decode as an account event".to_owned(),
                        mf,
                    ),
                )
            }
        } else {
            Err(Error::UnknownFrameType(t, mf))
        }
    }
}

} // verus!
