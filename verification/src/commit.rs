//! The commit envelope and its CAR block table, as plain values.
//!
//! A `#commit` frame body is a DAG-CBOR commit envelope whose `blocks`
//! field is a CAR v1 blob. Both are decoded by outside libraries; the
//! wrappers here hand the decoded data to the rest of the library as plain
//! values (strings, integers, byte vectors, and identifier parts), so that
//! everything downstream of the two calls is verified.

use vstd::prelude::*;
use vstd::slice::slice_to_vec;
use crate::cid::{Cid, CidOld, CidParts, spec_cid_wf};
use atrium_api::com::atproto::sync::subscribe_repos::Commit as WireCommit;
use atrium_api::com::atproto::sync::subscribe_repos::RepoOp as WireRepoOp;

verus! {

/// A content identifier attached to a commit operation: its parts for
/// block lookup, plus its canonical string form for consumers.
#[derive(Debug, Clone, PartialEq)]
pub struct OpCid {
    pub cid: Cid,
    pub text: String,
}

pub struct OpCidView {
    pub cid: CidParts,
    pub text: Seq<char>,
}

impl View for OpCid {
    type V = OpCidView;

    open spec fn view(&self) -> OpCidView {
        OpCidView { cid: self.cid@, text: self.text@ }
    }
}

/// One operation descriptor of a commit: an action, a repository path, and
/// for creates and updates the identifier of the record block.
#[derive(Debug, Clone, PartialEq)]
pub struct RepoOp {
    pub action: String,
    pub path: String,
    pub cid: Option<OpCid>,
}

pub struct RepoOpView {
    pub action: Seq<char>,
    pub path: Seq<char>,
    pub cid: Option<OpCidView>,
}

impl View for RepoOp {
    type V = RepoOpView;

    open spec fn view(&self) -> RepoOpView {
        RepoOpView {
            action: self.action@,
            path: self.path@,
            cid: match self.cid {
                Some(ref c) => Some(c@),
                None => None,
            },
        }
    }
}

/// The decoded commit envelope, with every field the event decoder or a
/// consumer reads held as a plain value.
#[derive(Debug, Clone, PartialEq)]
pub struct CommitEnvelope {
    /// DID of the repository this commit mutates.
    pub repo: String,
    /// Revision of the commit.
    pub rev: String,
    /// Stream sequence number.
    pub seq: i64,
    /// Revision of the last emitted commit of this repository, if any.
    pub since: Option<String>,
    /// Timestamp of the broadcast.
    pub time: String,
    pub too_big: bool,
    pub rebase: bool,
    /// Identifier of the repo commit object.
    pub commit: OpCid,
    /// Root of the MST tree of the previous commit, if any.
    pub prev_data: Option<OpCid>,
    /// Identifiers of the blobs referenced by this commit's records.
    pub blobs: Vec<OpCid>,
    /// CAR v1 blob holding the record blocks this commit references.
    pub blocks: Vec<u8>,
    /// The ordered operation list.
    pub ops: Vec<RepoOp>,
}

pub struct CommitEnvelopeView {
    pub repo: Seq<char>,
    pub rev: Seq<char>,
    pub seq: i64,
    pub since: Option<Seq<char>>,
    pub time: Seq<char>,
    pub too_big: bool,
    pub rebase: bool,
    pub commit: OpCidView,
    pub prev_data: Option<OpCidView>,
    pub blobs: Seq<OpCidView>,
    pub blocks: Seq<u8>,
    pub ops: Seq<RepoOpView>,
}

impl View for CommitEnvelope {
    type V = CommitEnvelopeView;

    open spec fn view(&self) -> CommitEnvelopeView {
        CommitEnvelopeView {
            repo: self.repo@,
            rev: self.rev@,
            seq: self.seq,
            since: match self.since {
                Some(ref s) => Some(s@),
                None => None,
            },
            time: self.time@,
            too_big: self.too_big,
            rebase: self.rebase,
            commit: self.commit@,
            prev_data: match self.prev_data {
                Some(ref c) => Some(c@),
                None => None,
            },
            blobs: self.blobs@.map_values(|c: OpCid| c@),
            blocks: self.blocks@,
            ops: self.ops@.map_values(|op: RepoOp| op@),
        }
    }
}

/// One block of the commit's CAR blob, with its identifier still in the
/// raw parts the CAR reader handed out.
#[derive(Debug, Clone)]
pub struct CarBlock {
    pub cid: CidOld,
    pub data: Vec<u8>,
}

pub struct CarBlockView {
    pub cid: CidParts,
    pub data: Seq<u8>,
}

impl View for CarBlock {
    type V = CarBlockView;

    open spec fn view(&self) -> CarBlockView {
        CarBlockView { cid: self.cid@, data: self.data@ }
    }
}

/// A block whose identifier passed validation.
#[derive(Debug, Clone)]
pub struct Block {
    pub cid: Cid,
    pub data: Vec<u8>,
}

pub struct BlockView {
    pub cid: CidParts,
    pub data: Seq<u8>,
}

impl View for Block {
    type V = BlockView;

    open spec fn view(&self) -> BlockView {
        BlockView { cid: self.cid@, data: self.data@ }
    }
}

#[verifier::external_type_specification]
#[verifier::external_body]
#[verifier::reject_recursive_types(T)]
pub struct ExObject<T>(atrium_api::types::Object<T>);

#[verifier::external_type_specification]
#[verifier::external_body]
pub struct ExRepoOpData(atrium_api::com::atproto::sync::subscribe_repos::RepoOpData);

#[verifier::external_type_specification]
#[verifier::external_body]
pub struct ExCommitData(atrium_api::com::atproto::sync::subscribe_repos::CommitData);

#[verifier::external_type_specification]
#[verifier::external_body]
pub struct ExCidLink(atrium_api::types::CidLink);

/// What the commit envelope bytes decode to, if anything. The decoding is
/// a function of the bytes alone.
pub uninterp spec fn spec_commit_of(b: Seq<u8>) -> Option<CommitEnvelopeView>;

/// Carries one decoded identifier link over into the library's plain
/// model: the parts are read off the link exactly as the
/// content-addressing library exposes them, and `text` is its canonical
/// string form.
#[verifier::external_body]
fn cid_model(l: &atrium_api::types::CidLink) -> OpCid {
    OpCid {
        cid: Cid {
            version: l.0.version() as u8,
            codec: l.0.codec(),
            multihash: l.0.hash().to_bytes(),
        },
        text: l.0.to_string(),
    }
}

/// Carries one wire operation over into the library's plain model.
#[verifier::external_body]
fn op_model(op: &WireRepoOp) -> RepoOp {
    RepoOp {
        action: op.data.action.clone(),
        path: op.data.path.clone(),
        cid: op.data.cid.as_ref().map(cid_model),
    }
}

/// Carries the decoded commit envelope over into the library's plain
/// model, field for field.
#[verifier::external_body]
fn commit_model(c: WireCommit) -> CommitEnvelope {
    CommitEnvelope {
        repo: c.data.repo.as_str().to_string(),
        rev: c.data.rev.as_str().to_string(),
        seq: c.data.seq,
        since: c.data.since.as_ref().map(|t| t.as_str().to_string()),
        time: c.data.time.as_str().to_string(),
        too_big: c.data.too_big,
        rebase: c.data.rebase,
        commit: cid_model(&c.data.commit),
        prev_data: c.data.prev_data.as_ref().map(cid_model),
        blobs: c.data.blobs.iter().map(cid_model).collect(),
        blocks: c.data.blocks.clone(),
        ops: c.data.ops.iter().map(op_model).collect(),
    }
}

/// Relies on serde_ipld_dagcbor::from_slice for the `subscribeRepos`
/// commit envelope: whether the bytes decode, and every decoded field, are
/// functions of the bytes alone. On failure the error's rendered message
/// is returned.
#[verifier::external_body]
pub(crate) fn decode_commit(b: &[u8]) -> (r: Result<CommitEnvelope, String>)
    ensures
        match r {
            Ok(c) => spec_commit_of(b@) == Some(c@),
            Err(_) => spec_commit_of(b@) is None,
        },
{
    match serde_ipld_dagcbor::from_slice::<WireCommit>(b) {
        Ok(c) => Ok(commit_model(c)),
        Err(e) => Err(e.to_string()),
    }
}

/// What the CAR bytes decode to, if anything: the blocks in stream order,
/// each with its identifier parts and payload. The decoding (with block
/// validation on) is a function of the bytes alone.
pub uninterp spec fn spec_car_blocks_of(b: Seq<u8>) -> Option<Seq<CarBlockView>>;

/// Relies on rs_car_sync::car_read_all with block hash validation enabled:
/// whether the blob decodes, and the sequence of `(identifier, payload)`
/// blocks, are functions of the bytes alone. On failure the error's
/// rendered message is returned. The reader asserts a few framing shapes
/// instead of reporting them, so callers must first accept the bytes with
/// the framing check the `requires` names; the refused bytes are reported
/// as CAR errors without reaching the reader.
#[verifier::external_body]
pub(crate) fn read_car(b: &[u8]) -> (r: Result<Vec<CarBlock>, String>)
    requires
        crate::car::spec_car_wire_ok(b@),
    ensures
        match r {
            Ok(v) => spec_car_blocks_of(b@) == Some(v@.map_values(|bl: CarBlock| bl@)),
            Err(_) => spec_car_blocks_of(b@) is None,
        },
{
    let mut cur = std::io::Cursor::new(b);
    match rs_car_sync::car_read_all(&mut cur, true) {
        Ok((blocks, _)) => Ok(blocks.into_iter().map(|(c, d)| CarBlock {
            cid: CidOld {
                version: c.version() as u8,
                codec: c.codec(),
                multihash: c.hash().to_bytes(),
            },
            data: d,
        }).collect()),
        Err(e) => Err(e.to_string()),
    }
}

/// Validated block table: every identifier must be well formed.
pub open spec fn spec_blocks_wf(raw: Seq<CarBlockView>) -> bool {
    forall|i: int| 0 <= i < raw.len() ==> spec_cid_wf(#[trigger] raw[i].cid)
}

pub open spec fn spec_convert_blocks(raw: Seq<CarBlockView>) -> Seq<BlockView> {
    raw.map_values(|bl: CarBlockView| BlockView { cid: bl.cid, data: bl.data })
}

/// Validates every block identifier of the CAR table, exactly as the
/// original bridge re-built each one through the multihash parser.
#[verifier::loop_isolation(false)]
pub fn convert_blocks(raw: Vec<CarBlock>) -> (r: Result<Vec<Block>, crate::cid::CidError>)
    ensures
        match r {
            Ok(v) => spec_blocks_wf(raw@.map_values(|bl: CarBlock| bl@)) && v@.map_values(
                |bl: Block| bl@,
            ) == spec_convert_blocks(raw@.map_values(|bl: CarBlock| bl@)),
            Err(_) => !spec_blocks_wf(raw@.map_values(|bl: CarBlock| bl@)),
        },
{
    let ghost rawv = raw@.map_values(|bl: CarBlock| bl@);
    let mut out: Vec<Block> = Vec::new();
    let mut i: usize = 0;
    while i < raw.len()
        invariant
            i <= raw@.len(),
            forall|j: int| 0 <= j < i ==> spec_cid_wf(#[trigger] rawv[j].cid),
            out@.map_values(|bl: Block| bl@) =~= spec_convert_blocks(rawv.subrange(0, i as int)),
        decreases raw@.len() - i,
    {
        let entry = &raw[i];
        let old_cid = CidOld {
            version: entry.cid.version,
            codec: entry.cid.codec,
            multihash: slice_to_vec(entry.cid.multihash.as_slice()),
        };
        let data = slice_to_vec(entry.data.as_slice());
        let ghost ocv = old_cid@;
        proof {
            assert(rawv[i as int] == raw@[i as int]@);
            assert(ocv == rawv[i as int].cid);
        }
        match Cid::try_from(old_cid) {
            Err(e) => {
                proof {
                    assert(!spec_cid_wf(rawv[i as int].cid));
                }
                return Err(e);
            },
            Ok(cid) => {
                let ghost cidv = cid@;
                let ghost datav = data@;
                let ghost before_map = out@.map_values(|bl: Block| bl@);
                out.push(Block { cid, data });
                proof {
                    let m1 = out@.map_values(|bl: Block| bl@);
                    let s1 = spec_convert_blocks(rawv.subrange(0, i + 1));
                    assert forall|j: int| 0 <= j < i + 1 implies m1[j] == s1[j] by {
                        assert(rawv.subrange(0, i + 1)[j] == rawv[j]);
                        if j < i {
                            assert(m1[j] == before_map[j]);
                            assert(before_map[j] == spec_convert_blocks(
                                rawv.subrange(0, i as int),
                            )[j]);
                            assert(rawv.subrange(0, i as int)[j] == rawv[j]);
                        } else {
                            assert(m1[j] == out@[j]@);
                            assert(out@[j]@ == BlockView { cid: cidv, data: datav });
                            assert(datav == rawv[j].data);
                        }
                    }
                    assert(m1 =~= s1);
                }
                i = i + 1;
            },
        }
    }
    proof {
        assert(rawv.subrange(0, rawv.len() as int) =~= rawv);
    }
    Ok(out)
}

/// First block whose identifier equals `cid`, in stream order.
pub open spec fn spec_find_block(blocks: Seq<BlockView>, cid: CidParts) -> Option<BlockView>
    decreases blocks.len(),
{
    if blocks.len() == 0 {
        None
    } else if blocks[0].cid == cid {
        Some(blocks[0])
    } else {
        spec_find_block(blocks.drop_first(), cid)
    }
}

/// Finds the first block of the table whose identifier equals `cid`.
#[verifier::loop_isolation(false)]
pub fn find_block<'a>(blocks: &'a Vec<Block>, cid: &Cid) -> (r: Option<&'a Block>)
    ensures
        match r {
            Some(bl) => spec_find_block(blocks@.map_values(|b: Block| b@), cid@) == Some(bl@),
            None => spec_find_block(blocks@.map_values(|b: Block| b@), cid@) is None,
        },
{
    let ghost bv = blocks@.map_values(|b: Block| b@);
    proof {
        assert(bv.subrange(0, bv.len() as int) =~= bv);
    }
    let mut i: usize = 0;
    while i < blocks.len()
        invariant
            i <= bv.len(),
            spec_find_block(bv, cid@) == spec_find_block(bv.subrange(i as int, bv.len() as int), cid@),
        decreases bv.len() - i,
    {
        proof {
            assert(bv.subrange(i as int, bv.len() as int).drop_first() =~= bv.subrange(
                i + 1,
                bv.len() as int,
            ));
        }
        if &blocks[i].cid == cid {
            return Some(&blocks[i]);
        }
        i = i + 1;
    }
    None
}

} // verus!
