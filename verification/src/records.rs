//! Record payloads and the dispatch from collection NSIDs to their schema
//! decoders.
//!
//! A record block is carried as its raw DAG-CBOR bytes after the schema
//! decoder for its collection has validated them; an unknown collection is
//! validated as a generic DAG-CBOR tree and carried as `Unknown`. The
//! NSID dispatch below is the single place a new collection is added.

use vstd::prelude::*;
use vstd::slice::slice_to_vec;
use crate::text::str_eq;

verus! {

/// A decoded record: the validated DAG-CBOR bytes of its block, under the
/// variant chosen by the operation's collection NSID.
#[derive(Debug, Clone, PartialEq)]
pub enum Record {
    Unknown(Vec<u8>),
    Post(Vec<u8>),
    Follow(Vec<u8>),
    Block(Vec<u8>),
    Repost(Vec<u8>),
    Like(Vec<u8>),
    Listitem(Vec<u8>),
    Generator(Vec<u8>),
    Profile(Vec<u8>),
    List(Vec<u8>),
    Starterpack(Vec<u8>),
}

pub enum RecordView {
    Unknown(Seq<u8>),
    Post(Seq<u8>),
    Follow(Seq<u8>),
    Block(Seq<u8>),
    Repost(Seq<u8>),
    Like(Seq<u8>),
    Listitem(Seq<u8>),
    Generator(Seq<u8>),
    Profile(Seq<u8>),
    List(Seq<u8>),
    Starterpack(Seq<u8>),
}

impl View for Record {
    type V = RecordView;

    open spec fn view(&self) -> RecordView {
        match self {
            Record::Unknown(b) => RecordView::Unknown(b@),
            Record::Post(b) => RecordView::Post(b@),
            Record::Follow(b) => RecordView::Follow(b@),
            Record::Block(b) => RecordView::Block(b@),
            Record::Repost(b) => RecordView::Repost(b@),
            Record::Like(b) => RecordView::Like(b@),
            Record::Listitem(b) => RecordView::Listitem(b@),
            Record::Generator(b) => RecordView::Generator(b@),
            Record::Profile(b) => RecordView::Profile(b@),
            Record::List(b) => RecordView::List(b@),
            Record::Starterpack(b) => RecordView::Starterpack(b@),
        }
    }
}

/// Whether the bytes decode as an `app.bsky.feed.post` record; a function
/// of the bytes alone.
pub uninterp spec fn spec_post_parses(b: Seq<u8>) -> bool;

/// Whether the bytes decode as an `app.bsky.graph.follow` record.
pub uninterp spec fn spec_follow_parses(b: Seq<u8>) -> bool;

/// Whether the bytes decode as an `app.bsky.graph.block` record.
pub uninterp spec fn spec_block_parses(b: Seq<u8>) -> bool;

/// Whether the bytes decode as an `app.bsky.feed.repost` record.
pub uninterp spec fn spec_repost_parses(b: Seq<u8>) -> bool;

/// Whether the bytes decode as an `app.bsky.feed.like` record.
pub uninterp spec fn spec_like_parses(b: Seq<u8>) -> bool;

/// Whether the bytes decode as an `app.bsky.graph.listitem` record.
pub uninterp spec fn spec_listitem_parses(b: Seq<u8>) -> bool;

/// Whether the bytes decode as an `app.bsky.feed.generator` record.
pub uninterp spec fn spec_generator_parses(b: Seq<u8>) -> bool;

/// Whether the bytes decode as an `app.bsky.actor.profile` record.
pub uninterp spec fn spec_profile_parses(b: Seq<u8>) -> bool;

/// Whether the bytes decode as an `app.bsky.graph.list` record.
pub uninterp spec fn spec_list_parses(b: Seq<u8>) -> bool;

/// Whether the bytes decode as an `app.bsky.graph.starterpack` record.
pub uninterp spec fn spec_starterpack_parses(b: Seq<u8>) -> bool;

/// Whether the bytes decode as a generic DAG-CBOR tree.
pub uninterp spec fn spec_ipld_parses(b: Seq<u8>) -> bool;

/// Relies on serde_ipld_dagcbor::from_slice for `app.bsky.feed.post`
/// records: success is a function of the bytes alone.
#[verifier::external_body]
fn parses_post(b: &[u8]) -> (r: bool)
    ensures
        r == spec_post_parses(b@),
{
    serde_ipld_dagcbor::from_slice::<atrium_api::app::bsky::feed::post::Record>(b).is_ok()
}

/// Relies on serde_ipld_dagcbor::from_slice for `app.bsky.graph.follow`
/// records: success is a function of the bytes alone.
#[verifier::external_body]
fn parses_follow(b: &[u8]) -> (r: bool)
    ensures
        r == spec_follow_parses(b@),
{
    serde_ipld_dagcbor::from_slice::<atrium_api::app::bsky::graph::follow::Record>(b).is_ok()
}

/// Relies on serde_ipld_dagcbor::from_slice for `app.bsky.graph.block`
/// records: success is a function of the bytes alone.
#[verifier::external_body]
fn parses_block(b: &[u8]) -> (r: bool)
    ensures
        r == spec_block_parses(b@),
{
    serde_ipld_dagcbor::from_slice::<atrium_api::app::bsky::graph::block::Record>(b).is_ok()
}

/// Relies on serde_ipld_dagcbor::from_slice for `app.bsky.feed.repost`
/// records: success is a function of the bytes alone.
#[verifier::external_body]
fn parses_repost(b: &[u8]) -> (r: bool)
    ensures
        r == spec_repost_parses(b@),
{
    serde_ipld_dagcbor::from_slice::<atrium_api::app::bsky::feed::repost::Record>(b).is_ok()
}

/// Relies on serde_ipld_dagcbor::from_slice for `app.bsky.feed.like`
/// records: success is a function of the bytes alone.
#[verifier::external_body]
fn parses_like(b: &[u8]) -> (r: bool)
    ensures
        r == spec_like_parses(b@),
{
    serde_ipld_dagcbor::from_slice::<atrium_api::app::bsky::feed::like::Record>(b).is_ok()
}

/// Relies on serde_ipld_dagcbor::from_slice for `app.bsky.graph.listitem`
/// records: success is a function of the bytes alone.
#[verifier::external_body]
fn parses_listitem(b: &[u8]) -> (r: bool)
    ensures
        r == spec_listitem_parses(b@),
{
    serde_ipld_dagcbor::from_slice::<atrium_api::app::bsky::graph::listitem::Record>(b).is_ok()
}

/// Relies on serde_ipld_dagcbor::from_slice for `app.bsky.feed.generator`
/// records: success is a function of the bytes alone.
#[verifier::external_body]
fn parses_generator(b: &[u8]) -> (r: bool)
    ensures
        r == spec_generator_parses(b@),
{
    serde_ipld_dagcbor::from_slice::<atrium_api::app::bsky::feed::generator::Record>(b).is_ok()
}

/// Relies on serde_ipld_dagcbor::from_slice for `app.bsky.actor.profile`
/// records: success is a function of the bytes alone.
#[verifier::external_body]
fn parses_profile(b: &[u8]) -> (r: bool)
    ensures
        r == spec_profile_parses(b@),
{
    serde_ipld_dagcbor::from_slice::<atrium_api::app::bsky::actor::profile::Record>(b).is_ok()
}

/// Relies on serde_ipld_dagcbor::from_slice for `app.bsky.graph.list`
/// records: success is a function of the bytes alone.
#[verifier::external_body]
fn parses_list(b: &[u8]) -> (r: bool)
    ensures
        r == spec_list_parses(b@),
{
    serde_ipld_dagcbor::from_slice::<atrium_api::app::bsky::graph::list::Record>(b).is_ok()
}

/// Relies on serde_ipld_dagcbor::from_slice for
/// `app.bsky.graph.starterpack` records: success is a function of the
/// bytes alone.
#[verifier::external_body]
fn parses_starterpack(b: &[u8]) -> (r: bool)
    ensures
        r == spec_starterpack_parses(b@),
{
    serde_ipld_dagcbor::from_slice::<atrium_api::app::bsky::graph::starterpack::Record>(b).is_ok()
}

/// Relies on serde_ipld_dagcbor::from_slice for generic `Ipld` trees:
/// success is a function of the bytes alone.
#[verifier::external_body]
pub(crate) fn parses_ipld(b: &[u8]) -> (r: bool)
    ensures
        r == spec_ipld_parses(b@),
{
    serde_ipld_dagcbor::from_slice::<ipld_core::ipld::Ipld>(b).is_ok()
}

/// The record produced for block bytes under a collection NSID: the typed
/// validation for the ten known collections, the generic tree for unknown
/// ones, and `None` where validation fails.
pub open spec fn spec_record_of(nsid: Seq<char>, data: Seq<u8>) -> Option<RecordView> {
    if nsid == "app.bsky.feed.post"@ {
        if spec_post_parses(data) {
            Some(RecordView::Post(data))
        } else {
            None
        }
    } else if nsid == "app.bsky.graph.follow"@ {
        if spec_follow_parses(data) {
            Some(RecordView::Follow(data))
        } else {
            None
        }
    } else if nsid == "app.bsky.graph.block"@ {
        if spec_block_parses(data) {
            Some(RecordView::Block(data))
        } else {
            None
        }
    } else if nsid == "app.bsky.feed.repost"@ {
        if spec_repost_parses(data) {
            Some(RecordView::Repost(data))
        } else {
            None
        }
    } else if nsid == "app.bsky.feed.like"@ {
        if spec_like_parses(data) {
            Some(RecordView::Like(data))
        } else {
            None
        }
    } else if nsid == "app.bsky.graph.listitem"@ {
        if spec_listitem_parses(data) {
            Some(RecordView::Listitem(data))
        } else {
            None
        }
    } else if nsid == "app.bsky.feed.generator"@ {
        if spec_generator_parses(data) {
            Some(RecordView::Generator(data))
        } else {
            None
        }
    } else if nsid == "app.bsky.actor.profile"@ {
        if spec_profile_parses(data) {
            Some(RecordView::Profile(data))
        } else {
            None
        }
    } else if nsid == "app.bsky.graph.list"@ {
        if spec_list_parses(data) {
            Some(RecordView::List(data))
        } else {
            None
        }
    } else if nsid == "app.bsky.graph.starterpack"@ {
        if spec_starterpack_parses(data) {
            Some(RecordView::Starterpack(data))
        } else {
            None
        }
    } else {
        if spec_ipld_parses(data) {
            Some(RecordView::Unknown(data))
        } else {
            None
        }
    }
}

/// Decodes block bytes into the record variant chosen by the collection
/// NSID, or `None` where the schema decoder rejects them.
pub fn decode_record(nsid: &str, data: &[u8]) -> (r: Option<Record>)
    ensures
        match r {
            Some(rec) => spec_record_of(nsid@, data@) == Some(rec@),
            None => spec_record_of(nsid@, data@) is None,
        },
{
    if str_eq(nsid, "app.bsky.feed.post") {
        if parses_post(data) {
            Some(Record::Post(slice_to_vec(data)))
        } else {
            None
        }
    } else if str_eq(nsid, "app.bsky.graph.follow") {
        if parses_follow(data) {
            Some(Record::Follow(slice_to_vec(data)))
        } else {
            None
        }
    } else if str_eq(nsid, "app.bsky.graph.block") {
        if parses_block(data) {
            Some(Record::Block(slice_to_vec(data)))
        } else {
            None
        }
    } else if str_eq(nsid, "app.bsky.feed.repost") {
        if parses_repost(data) {
            Some(Record::Repost(slice_to_vec(data)))
        } else {
            None
        }
    } else if str_eq(nsid, "app.bsky.feed.like") {
        if parses_like(data) {
            Some(Record::Like(slice_to_vec(data)))
        } else {
            None
        }
    } else if str_eq(nsid, "app.bsky.graph.listitem") {
        if parses_listitem(data) {
            Some(Record::Listitem(slice_to_vec(data)))
        } else {
            None
        }
    } else if str_eq(nsid, "app.bsky.feed.generator") {
        if parses_generator(data) {
            Some(Record::Generator(slice_to_vec(data)))
        } else {
            None
        }
    } else if str_eq(nsid, "app.bsky.actor.profile") {
        if parses_profile(data) {
            Some(Record::Profile(slice_to_vec(data)))
        } else {
            None
        }
    } else if str_eq(nsid, "app.bsky.graph.list") {
        if parses_list(data) {
            Some(Record::List(slice_to_vec(data)))
        } else {
            None
        }
    } else if str_eq(nsid, "app.bsky.graph.starterpack") {
        if parses_starterpack(data) {
            Some(Record::Starterpack(slice_to_vec(data)))
        } else {
            None
        }
    } else {
        if parses_ipld(data) {
            Some(Record::Unknown(slice_to_vec(data)))
        } else {
            None
        }
    }
}

/// An unknown collection NSID is not an error: whenever the block bytes
/// are well-formed DAG-CBOR, the record is `Unknown` carrying the raw
/// tree's bytes.
pub proof fn lemma_unknown_collection_is_not_an_error(nsid: Seq<char>, data: Seq<u8>)
    requires
        nsid != "app.bsky.feed.post"@,
        nsid != "app.bsky.graph.follow"@,
        nsid != "app.bsky.graph.block"@,
        nsid != "app.bsky.feed.repost"@,
        nsid != "app.bsky.feed.like"@,
        nsid != "app.bsky.graph.listitem"@,
        nsid != "app.bsky.feed.generator"@,
        nsid != "app.bsky.actor.profile"@,
        nsid != "app.bsky.graph.list"@,
        nsid != "app.bsky.graph.starterpack"@,
        spec_ipld_parses(data),
    ensures
        spec_record_of(nsid, data) == Some(RecordView::Unknown(data)),
{
}

} // verus!
