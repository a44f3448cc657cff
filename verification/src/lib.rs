//! A verified client library for the ATProto `subscribeRepos` firehose.
//!
//! The library turns opaque binary websocket payloads into typed events:
//! a payload is split into a CBOR header and a body (`frame`), and the body
//! of a `#commit` frame is decoded into an ordered list of repository
//! operations whose record blocks are resolved out of the commit's CAR blob
//! (`message`). Content identifiers that cross the boundary between the
//! CBOR decoder and the CAR decoder are normalized by a small bridge (`cid`).
//!
//! The transport itself (the websocket) is not part of this crate's core;
//! a caller feeds each received binary message to the frame decoder and
//! hands the result to the message decoder.

pub mod car;
pub mod cbor;
pub mod cid;
pub mod commit;
pub mod frame;
pub mod message;
pub mod records;
pub mod text;

pub use cid::Cid;
pub use cid::CidError;
pub use cid::CidOld;
pub use commit::CommitEnvelope;
pub use commit::OpCid;
pub use commit::RepoOp;
pub use message::Error;
pub use message::FirehoseMessage;
pub use message::FirehoseMessageKind;
pub use message::Operation;
pub use message::OperationKind;
pub use message::OperationMeta;
pub use records::Record;
