//! The frame envelope: one self-delimited CBOR header map followed by the
//! raw body bytes.
//!
//! The header map carries `op` (an integer: `1` for a message frame, `-1`
//! for an error frame) and, for message frames, an optional string `t`
//! naming the body's schema. The envelope layer is deliberately lenient:
//! extra header keys are ignored, and a missing or non-string `t` yields
//! `None` rather than an error.

use vstd::prelude::*;
use vstd::slice::slice_to_vec;
use vstd::utf8::{encode_utf8, encode_utf8_decode_utf8, decode_utf8, valid_utf8};
use crate::cbor::{
    spec_head,
    spec_item_end,
    spec_items_end,
    read_head,
    skip_item,
    skip_items,
    lemma_items_end_bounds,
};

verus! {

/// Errors of the envelope layer.
#[derive(Debug)]
pub enum Error {
    /// The payload is not a self-delimited CBOR item followed by at least
    /// one body byte, or the header item is not a usable map. Carries the
    /// offending bytes.
    InvalidFrameData(Vec<u8>),
    /// The header map's `op` field is missing, is not an integer, or is an
    /// integer other than `1` and `-1`. Carries the header bytes.
    InvalidFrameType(Vec<u8>),
    /// A CBOR-level decoding failure outside the two cases above. The
    /// decoder folds all such failures into the cases above and never
    /// produces this variant itself.
    CborDecode(String),
}

/// The interpreted header map of a frame.
#[derive(Debug, Clone, PartialEq, Eq)]
pub enum FrameHeader {
    Message(Option<String>),
    Error,
}

/// A whole decoded frame: the interpreted header plus the body bytes.
#[derive(Debug, Clone, PartialEq, Eq)]
pub enum Frame {
    Message(Option<String>, MessageFrame),
    Error(ErrorFrame),
}

#[derive(Debug, Clone, PartialEq, Eq)]
pub struct MessageFrame {
    pub body: Vec<u8>,
}

#[derive(Debug, Clone, PartialEq, Eq)]
pub struct ErrorFrame {
}

/// The mathematical value of a frame.
pub enum FrameView {
    Message(Option<Seq<char>>, Seq<u8>),
    Error,
}

impl View for MessageFrame {
    type V = Seq<u8>;

    open spec fn view(&self) -> Seq<u8> {
        self.body@
    }
}

impl View for Frame {
    type V = FrameView;

    open spec fn view(&self) -> FrameView {
        match self {
            Frame::Message(t, mf) => FrameView::Message(
                match t {
                    Some(s) => Some(s@),
                    None => None,
                },
                mf.body@,
            ),
            Frame::Error(_) => FrameView::Error,
        }
    }
}

/// Specification-level result of interpreting a header item.
pub enum SpecHeader {
    Msg(Option<Seq<char>>),
    Error,
    BadType,
    BadData,
}

/// Specification-level result of decoding a whole payload.
pub enum SpecFrame {
    Msg(Option<Seq<char>>, Seq<u8>),
    Error,
    BadType,
    BadData,
}

/// The view of an optional owned string.
pub open spec fn opt_str_view(t: Option<String>) -> Option<Seq<char>> {
    match t {
        Some(s) => Some(s@),
        None => None,
    }
}

/// The bytes of the key `"op"`.
pub open spec fn spec_op_key() -> Seq<u8> {
    seq![0x6fu8, 0x70u8]
}

/// The bytes of the key `"t"`.
pub open spec fn spec_t_key() -> Seq<u8> {
    seq![0x74u8]
}

/// True when a text item whose content bytes equal `key` starts at `pos`.
pub open spec fn spec_key_at(h: Seq<u8>, pos: int, key: Seq<u8>) -> bool {
    match spec_head(h, pos) {
        None => false,
        Some((klen, kae)) => h[pos] / 32 == 3 && kae + klen <= h.len() && h.subrange(
            kae,
            kae + klen,
        ) == key,
    }
}

/// Position of the value item bound to the first occurrence of the text key
/// `key` among the `n` map entries that start at `pos`.
pub open spec fn spec_find_key(h: Seq<u8>, pos: int, n: nat, key: Seq<u8>) -> Option<int>
    decreases n,
{
    if n == 0 {
        None
    } else {
        match spec_item_end(h, pos) {
            None => None,
            Some(ke) => match spec_item_end(h, ke) {
                None => None,
                Some(ve) => if spec_key_at(h, pos, key) {
                    Some(ke)
                } else {
                    spec_find_key(h, ve, (n - 1) as nat, key)
                },
            },
        }
    }
}

/// True when each of the `n` map entries starting at `pos` has a text key.
pub open spec fn spec_keys_text(h: Seq<u8>, pos: int, n: nat) -> bool
    decreases n,
{
    if n == 0 {
        true
    } else {
        match spec_item_end(h, pos) {
            None => false,
            Some(ke) => match spec_item_end(h, ke) {
                None => false,
                Some(ve) => h[pos] / 32 == 3 && spec_keys_text(h, ve, (n - 1) as nat),
            },
        }
    }
}

/// Interpretation of the `t` value item at `tp`: a text item yields its
/// decoded string (or `BadData` on invalid UTF-8), anything else `None`.
pub open spec fn spec_t_value(h: Seq<u8>, tp: int) -> SpecHeader {
    match spec_head(h, tp) {
        None => SpecHeader::BadData,
        Some((tlen, tae)) => {
            if h[tp] / 32 != 3 {
                SpecHeader::Msg(None)
            } else if tae + tlen <= h.len() {
                let tb = h.subrange(tae, tae + tlen);
                if valid_utf8(tb) {
                    SpecHeader::Msg(Some(decode_utf8(tb)))
                } else {
                    SpecHeader::BadData
                }
            } else {
                SpecHeader::BadData
            }
        },
    }
}

/// Interpretation of one complete header item.
///
/// The header must be a single map covering exactly the given bytes, with
/// text keys throughout; its `op` entry selects the frame kind, and for
/// message frames the optional `t` entry is read as the schema name.
pub open spec fn spec_header_of(h: Seq<u8>) -> SpecHeader {
    match spec_head(h, 0) {
        None => SpecHeader::BadData,
        Some((n, ae)) => {
            if h[0] / 32 != 5 {
                SpecHeader::BadData
            } else if spec_items_end(h, ae, 2 * n) != Some(h.len() as int) {
                SpecHeader::BadData
            } else if !spec_keys_text(h, ae, n) {
                SpecHeader::BadData
            } else {
                match spec_find_key(h, ae, n, spec_op_key()) {
                    None => SpecHeader::BadType,
                    Some(vp) => match spec_head(h, vp) {
                        None => SpecHeader::BadData,
                        Some((v, _)) => {
                            if h[vp] / 32 == 0 && v == 1 {
                                match spec_find_key(h, ae, n, spec_t_key()) {
                                    None => SpecHeader::Msg(None),
                                    Some(tp) => spec_t_value(h, tp),
                                }
                            } else if h[vp] / 32 == 1 && v == 0 {
                                SpecHeader::Error
                            } else {
                                SpecHeader::BadType
                            }
                        },
                    },
                }
            }
        },
    }
}

/// Decoding a whole payload: split it into one self-delimited header item
/// and a non-empty body, then interpret the header.
pub open spec fn spec_frame_of(b: Seq<u8>) -> SpecFrame {
    match spec_item_end(b, 0) {
        None => SpecFrame::BadData,
        Some(e) => if e >= b.len() {
            SpecFrame::BadData
        } else {
            match spec_header_of(b.subrange(0, e)) {
                SpecHeader::Msg(t) => SpecFrame::Msg(t, b.subrange(e, b.len() as int)),
                SpecHeader::Error => SpecFrame::Error,
                SpecHeader::BadType => SpecFrame::BadType,
                SpecHeader::BadData => SpecFrame::BadData,
            }
        },
    }
}

/// Relies on std's `String::from_utf8`: it returns `Ok` exactly when the
/// bytes are valid UTF-8, and the returned string is the one those bytes
/// encode.
#[verifier::external_body]
pub(crate) fn string_from_utf8(v: Vec<u8>) -> (r: Option<String>)
    ensures
        match r {
            Some(s) => valid_utf8(v@) && encode_utf8(s@) == v@,
            None => !valid_utf8(v@),
        },
{
    String::from_utf8(v).ok()
}

/// Compares `key` with the bytes of `h` starting at `start`.
#[verifier::loop_isolation(false)]
fn range_matches(h: &[u8], start: usize, key: &[u8]) -> (r: bool)
    requires
        start + key@.len() <= h@.len(),
    ensures
        r == (h@.subrange(start as int, start + key@.len()) == key@),
{
    let klen = key.len();
    let hlen = h.len();
    proof {
        assert(h@.len() == hlen);
    }
    let mut i: usize = 0;
    while i < klen
        invariant
            i <= klen,
            forall|j: int| 0 <= j < i ==> h@[start + j] == key@[j],
        decreases klen - i,
    {
        if h[start + i] != key[i] {
            proof {
                assert(h@.subrange(start as int, start + key@.len())[i as int] != key@[i as int]);
            }
            return false;
        }
        i = i + 1;
    }
    proof {
        assert(h@.subrange(start as int, start + key@.len()) =~= key@);
    }
    true
}

/// True when a text item whose content equals `key` starts at `pos`.
pub(crate) fn key_at(h: &[u8], pos: usize, key: &[u8]) -> (r: bool)
    ensures
        r == spec_key_at(h@, pos as int, key@),
{
    if pos >= h.len() {
        return false;
    }
    let major = h[pos] / 32;
    match read_head(h, pos) {
        None => false,
        Some((klen, kae)) => {
            if major == 3 && klen == key.len() as u64 && klen <= (h.len() - kae) as u64 {
                range_matches(h, kae, key)
            } else {
                proof {
                    if major == 3 && kae + klen <= h@.len() {
                        // a content range whose length differs from the key
                        // cannot equal it
                        assert(h@.subrange(kae as int, kae + klen as int).len() == klen);
                    }
                }
                false
            }
        },
    }
}

/// Finds the value position of the first entry with text key `key` among
/// the `n` entries starting at `pos`.
#[verifier::loop_isolation(false)]
pub(crate) fn find_key(h: &[u8], pos: usize, n: usize, key: &[u8]) -> (r: Option<usize>)
    ensures
        match r {
            Some(vp) => spec_find_key(h@, pos as int, n as nat, key@) == Some(vp as int),
            None => spec_find_key(h@, pos as int, n as nat, key@) is None,
        },
{
    let mut cur: usize = pos;
    let mut rem: usize = n;
    while rem > 0
        invariant
            rem <= n,
            spec_find_key(h@, pos as int, n as nat, key@) == spec_find_key(
                h@,
                cur as int,
                rem as nat,
                key@,
            ),
        decreases rem,
    {
        match skip_item(h, cur) {
            None => {
                return None;
            },
            Some(ke) => {
                match skip_item(h, ke) {
                    None => {
                        return None;
                    },
                    Some(ve) => {
                        if key_at(h, cur, key) {
                            return Some(ke);
                        }
                        cur = ve;
                        rem = rem - 1;
                    },
                }
            },
        }
    }
    None
}

/// Checks that all `n` entries starting at `pos` have text keys.
#[verifier::loop_isolation(false)]
pub(crate) fn keys_text(h: &[u8], pos: usize, n: usize) -> (r: bool)
    ensures
        r == spec_keys_text(h@, pos as int, n as nat),
{
    let mut cur: usize = pos;
    let mut rem: usize = n;
    while rem > 0
        invariant
            rem <= n,
            spec_keys_text(h@, pos as int, n as nat) == spec_keys_text(h@, cur as int, rem as nat),
        decreases rem,
    {
        match skip_item(h, cur) {
            None => {
                return false;
            },
            Some(ke) => {
                match skip_item(h, ke) {
                    None => {
                        return false;
                    },
                    Some(ve) => {
                        if cur >= h.len() || h[cur] / 32 != 3 {
                            return false;
                        }
                        cur = ve;
                        rem = rem - 1;
                    },
                }
            },
        }
    }
    true
}

impl FrameHeader {
    /// Interprets one complete CBOR header item.
    pub fn try_from(value: &[u8]) -> (r: Result<FrameHeader, Error>)
        ensures
            match r {
                Ok(FrameHeader::Message(t)) => spec_header_of(value@) == SpecHeader::Msg(
                    opt_str_view(t),
                ),
                Ok(FrameHeader::Error) => spec_header_of(value@) == SpecHeader::Error,
                Err(Error::InvalidFrameType(d)) => spec_header_of(value@) == SpecHeader::BadType
                    && d@ == value@,
                Err(Error::InvalidFrameData(d)) => spec_header_of(value@) == SpecHeader::BadData
                    && d@ == value@,
                Err(Error::CborDecode(_)) => false,
            },
    {
        let (n, ae) = match read_head(value, 0) {
            None => {
                return Err(Error::InvalidFrameData(slice_to_vec(value)));
            },
            Some(h) => h,
        };
        if value[0] / 32 != 5 {
            return Err(Error::InvalidFrameData(slice_to_vec(value)));
        }
        // the 2 * n entry items must cover the rest of the header exactly
        if n > ((value.len() - ae) / 2) as u64 {
            proof {
                lemma_items_end_bounds(value@, ae as int, 2 * n as nat);
            }
            return Err(Error::InvalidFrameData(slice_to_vec(value)));
        }
        let n_entries = n as usize;
        match skip_items(value, ae, 2 * n_entries) {
            Some(e) if e == value.len() => {},
            _ => {
                return Err(Error::InvalidFrameData(slice_to_vec(value)));
            },
        }
        if !keys_text(value, ae, n_entries) {
            return Err(Error::InvalidFrameData(slice_to_vec(value)));
        }
        let mut op_key: Vec<u8> = Vec::new();
        op_key.push(0x6f);
        op_key.push(0x70);
        proof {
            assert(op_key@ =~= spec_op_key());
        }
        let vp = match find_key(value, ae, n_entries, op_key.as_slice()) {
            None => {
                return Err(Error::InvalidFrameType(slice_to_vec(value)));
            },
            Some(vp) => vp,
        };
        let (v, _vae) = match read_head(value, vp) {
            None => {
                return Err(Error::InvalidFrameData(slice_to_vec(value)));
            },
            Some(h) => h,
        };
        let vmaj = value[vp] / 32;
        if vmaj == 0 && v == 1 {
            let mut t_key: Vec<u8> = Vec::new();
            t_key.push(0x74);
            proof {
                assert(t_key@ =~= spec_t_key());
            }
            let tp = match find_key(value, ae, n_entries, t_key.as_slice()) {
                None => {
                    return Ok(FrameHeader::Message(None));
                },
                Some(tp) => tp,
            };
            let (tlen, tae) = match read_head(value, tp) {
                None => {
                    return Err(Error::InvalidFrameData(slice_to_vec(value)));
                },
                Some(h) => h,
            };
            if value[tp] / 32 != 3 {
                return Ok(FrameHeader::Message(None));
            }
            if tlen > (value.len() - tae) as u64 {
                return Err(Error::InvalidFrameData(slice_to_vec(value)));
            }
            let tb = slice_to_vec(slice_range(value, tae, tae + tlen as usize));
            match string_from_utf8(tb) {
                Some(s) => {
                    proof {
                        encode_utf8_decode_utf8(s@);
                    }
                    Ok(FrameHeader::Message(Some(s)))
                },
                None => Err(Error::InvalidFrameData(slice_to_vec(value))),
            }
        } else if vmaj == 1 && v == 0 {
            Ok(FrameHeader::Error)
        } else {
            Err(Error::InvalidFrameType(slice_to_vec(value)))
        }
    }
}

/// The `n` big-endian base-256 digits of `v`.
pub open spec fn spec_be_bytes(v: nat, n: nat) -> Seq<u8>
    decreases n,
{
    if n == 0 {
        Seq::empty()
    } else {
        spec_be_bytes(v / 0x100, (n - 1) as nat).push((v % 0x100) as u8)
    }
}

/// `v` fits in `n` base-256 digits.
pub open spec fn spec_be_fits(v: nat, n: nat) -> bool
    decreases n,
{
    if n == 0 {
        v == 0
    } else {
        spec_be_fits(v / 0x100, (n - 1) as nat)
    }
}

/// The minimal CBOR head encoding a major type and its argument.
pub open spec fn spec_enc_arg(major: nat, v: nat) -> Seq<u8> {
    if v < 24 {
        seq![(major * 32 + v) as u8]
    } else if v < 0x100 {
        seq![(major * 32 + 24) as u8] + spec_be_bytes(v, 1)
    } else if v < 0x10000 {
        seq![(major * 32 + 25) as u8] + spec_be_bytes(v, 2)
    } else if v < 0x100000000 {
        seq![(major * 32 + 26) as u8] + spec_be_bytes(v, 4)
    } else {
        seq![(major * 32 + 27) as u8] + spec_be_bytes(v, 8)
    }
}

/// A text item: its head, then its content bytes.
pub open spec fn spec_enc_text(sbytes: Seq<u8>) -> Seq<u8> {
    spec_enc_arg(3, sbytes.len()) + sbytes
}

/// The encoded header map `{op: 1}` or `{op: 1, t: s}` of a message frame.
pub open spec fn spec_enc_msg_header(t: Option<Seq<char>>) -> Seq<u8> {
    match t {
        None => spec_enc_arg(5, 1) + spec_enc_text(spec_op_key()) + spec_enc_arg(0, 1),
        Some(s) => spec_enc_arg(5, 2) + spec_enc_text(spec_op_key()) + spec_enc_arg(0, 1)
            + spec_enc_text(spec_t_key()) + spec_enc_text(encode_utf8(s)),
    }
}

/// The encoded header map `{op: -1}` of an error frame.
pub open spec fn spec_enc_error_header() -> Seq<u8> {
    spec_enc_arg(5, 1) + spec_enc_text(spec_op_key()) + spec_enc_arg(1, 0)
}

/// The encoded one-entry header map `{op: x}` for an arbitrary integer:
/// major type 0 encodes `x = arg`, major type 1 encodes `x = -1 - arg`.
pub open spec fn spec_enc_op_header(opmajor: nat, oparg: nat) -> Seq<u8> {
    spec_enc_arg(5, 1) + spec_enc_text(spec_op_key()) + spec_enc_arg(opmajor, oparg)
}

/// The encoding of either frame header.
pub open spec fn spec_enc_frame_header(h: FrameHeader) -> Seq<u8> {
    match h {
        FrameHeader::Message(t) => spec_enc_msg_header(opt_str_view(t)),
        FrameHeader::Error => spec_enc_error_header(),
    }
}

/// Big-endian digits written at `pos` recompose to the encoded value.
proof fn lemma_be_bytes_value(b: Seq<u8>, pos: int, v: nat, n: nat)
    requires
        spec_be_fits(v, n),
        0 <= pos,
        pos + n <= b.len(),
        b.subrange(pos, pos + n) == spec_be_bytes(v, n),
    ensures
        spec_be_sum(b, pos, n) == v,
    decreases n,
{
    if n == 0 {
    } else {
        let hi = v / 0x100;
        let rest = spec_be_bytes(hi, (n - 1) as nat);
        lemma_be_bytes_len(hi, (n - 1) as nat);
        assert(b[pos + n - 1] == spec_be_bytes(v, n)[n - 1]);
        assert(b.subrange(pos, pos + (n - 1)) =~= rest) by {
            assert forall|i: int| 0 <= i < n - 1 implies b.subrange(pos, pos + (n - 1))[i]
                == rest[i] by {
                assert(b[pos + i] == spec_be_bytes(v, n)[i]);
            }
        }
        lemma_be_bytes_value(b, pos, hi, (n - 1) as nat);
    }
}

/// The digit sequence has exactly `n` digits.
proof fn lemma_be_bytes_len(v: nat, n: nat)
    ensures
        spec_be_bytes(v, n).len() == n,
    decreases n,
{
    if n > 0 {
        lemma_be_bytes_len(v / 0x100, (n - 1) as nat);
    }
}

/// Big-endian recomposition of `n` digits at `pos`.
pub open spec fn spec_be_sum(b: Seq<u8>, pos: int, n: nat) -> nat
    decreases n,
{
    if n == 0 {
        0
    } else {
        spec_be_sum(b, pos, (n - 1) as nat) * 0x100 + b[pos + n - 1] as nat
    }
}

/// Values below the digit capacity fit.
proof fn lemma_be_fits(v: nat, n: nat)
    requires
        n == 1 && v < 0x100 || n == 2 && v < 0x10000 || n == 4 && v < 0x100000000 || n == 8 && v
            < 0x10000000000000000,
    ensures
        spec_be_fits(v, n),
{
    reveal_with_fuel(spec_be_fits, 9);
    vstd::arithmetic::div_mod::lemma_div_denominator(v as int, 0x100, 0x100);
    assert(v / 0x100 / 0x100 == v / 0x10000);
    vstd::arithmetic::div_mod::lemma_div_denominator(v as int, 0x10000, 0x100);
    assert(v / 0x10000 / 0x100 == v / 0x1000000);
    vstd::arithmetic::div_mod::lemma_div_denominator(v as int, 0x1000000, 0x100);
    assert(v / 0x1000000 / 0x100 == v / 0x100000000);
    vstd::arithmetic::div_mod::lemma_div_denominator(v as int, 0x100000000, 0x100);
    vstd::arithmetic::div_mod::lemma_div_denominator(v as int, 0x10000000000, 0x100);
    vstd::arithmetic::div_mod::lemma_div_denominator(v as int, 0x1000000000000, 0x100);
    vstd::arithmetic::div_mod::lemma_div_denominator(v as int, 0x100000000000000, 0x100);
}

/// Reading the head written by the encoder yields the encoded argument.
pub proof fn lemma_head_of_enc(b: Seq<u8>, pos: int, major: nat, v: nat)
    requires
        major < 8,
        v < 0x10000000000000000,
        0 <= pos,
        pos + spec_enc_arg(major, v).len() <= b.len(),
        b.subrange(pos, pos + spec_enc_arg(major, v).len()) == spec_enc_arg(major, v),
    ensures
        spec_head(b, pos) == Some((v, pos + spec_enc_arg(major, v).len())),
        b[pos] / 32 == major,
{
    let enc = spec_enc_arg(major, v);
    assert(b[pos] == enc[0]);
    let n: nat = if v < 24 {
        0
    } else if v < 0x100 {
        1
    } else if v < 0x10000 {
        2
    } else if v < 0x100000000 {
        4
    } else {
        8
    };
    if n == 0 {
        assert(b[pos] == major * 32 + v);
    } else {
        lemma_be_bytes_len(v, n);
        assert(enc.len() == 1 + n);
        lemma_be_fits(v, n);
        assert(b.subrange(pos + 1, pos + 1 + n) =~= spec_be_bytes(v, n)) by {
            assert forall|i: int| 0 <= i < n implies b.subrange(pos + 1, pos + 1 + n)[i]
                == spec_be_bytes(v, n)[i] by {
                assert(b[pos + 1 + i] == enc[1 + i]);
            }
        }
        lemma_be_bytes_value(b, pos + 1, v, n);
        if n == 1 {
            reveal_with_fuel(spec_be_sum, 2);
        } else if n == 2 {
            reveal_with_fuel(spec_be_sum, 3);
        } else if n == 4 {
            reveal_with_fuel(spec_be_sum, 5);
        } else {
            reveal_with_fuel(spec_be_sum, 9);
        }
    }
}

/// The text item written by the encoder parses as one item whose content
/// bytes are the encoded ones.
pub proof fn lemma_text_item_of_enc(b: Seq<u8>, pos: int, sbytes: Seq<u8>)
    requires
        sbytes.len() < 0x10000000000000000,
        0 <= pos,
        pos + spec_enc_text(sbytes).len() <= b.len(),
        b.subrange(pos, pos + spec_enc_text(sbytes).len()) == spec_enc_text(sbytes),
    ensures
        spec_item_end(b, pos) == Some(pos + spec_enc_text(sbytes).len()),
        b[pos] / 32 == 3,
        spec_head(b, pos) == Some(
            (sbytes.len(), pos + spec_enc_arg(3, sbytes.len()).len()),
        ),
        b.subrange(
            pos + spec_enc_arg(3, sbytes.len()).len(),
            pos + spec_enc_text(sbytes).len(),
        ) == sbytes,
{
    let head = spec_enc_arg(3, sbytes.len());
    let enc = spec_enc_text(sbytes);
    assert(b.subrange(pos, pos + head.len()) =~= head) by {
        assert forall|i: int| 0 <= i < head.len() implies b.subrange(pos, pos + head.len())[i]
            == head[i] by {
            assert(b[pos + i] == enc[i]);
        }
    }
    lemma_head_of_enc(b, pos, 3, sbytes.len());
    assert(b.subrange(pos + head.len(), pos + enc.len()) =~= sbytes) by {
        assert forall|i: int| 0 <= i < sbytes.len() implies b.subrange(
            pos + head.len(),
            pos + enc.len(),
        )[i] == sbytes[i] by {
            assert(b[pos + head.len() + i] == enc[head.len() + i]);
        }
    }
}

/// The one-entry header `{op: x}` is one self-delimited item wherever it
/// stands as a prefix.
proof fn lemma_op_header_items(b: Seq<u8>, opm: nat, oparg: nat)
    requires
        opm < 2,
        oparg < 0x10000000000000000,
        spec_enc_op_header(opm, oparg).len() <= b.len(),
        b.subrange(0, spec_enc_op_header(opm, oparg).len() as int) == spec_enc_op_header(
            opm,
            oparg,
        ),
    ensures
        spec_head(b, 0) == Some((1nat, 1int)),
        b[0] / 32 == 5,
        spec_item_end(b, 1) == Some(4int),
        spec_key_at(b, 1, spec_op_key()),
        b[1] / 32 == 3,
        spec_head(b, 4) == Some((oparg, spec_enc_op_header(opm, oparg).len() as int)),
        b[4] / 32 == opm,
        spec_item_end(b, 4) == Some(spec_enc_op_header(opm, oparg).len() as int),
        spec_items_end(b, 1, 2) == Some(spec_enc_op_header(opm, oparg).len() as int),
        spec_item_end(b, 0) == Some(spec_enc_op_header(opm, oparg).len() as int),
{
    let h = spec_enc_op_header(opm, oparg);
    let key = spec_enc_text(spec_op_key());
    let argenc = spec_enc_arg(opm, oparg);
    assert(key.len() == 3);
    assert(b.subrange(0, 1) =~= spec_enc_arg(5, 1)) by {
        assert(b[0] == h[0]);
    }
    lemma_head_of_enc(b, 0, 5, 1);
    assert(b.subrange(1, 4) =~= key) by {
        assert forall|i: int| 0 <= i < 3 implies b.subrange(1, 4)[i] == key[i] by {
            assert(b[1 + i] == h[1 + i]);
        }
    }
    lemma_text_item_of_enc(b, 1, spec_op_key());
    assert(b.subrange(4, h.len() as int) =~= argenc) by {
        assert forall|i: int| 0 <= i < argenc.len() implies b.subrange(4, h.len() as int)[i]
            == argenc[i] by {
            assert(b[4 + i] == h[4 + i]);
        }
    }
    lemma_head_of_enc(b, 4, opm, oparg);
    assert(b.subrange(2, 4) =~= spec_op_key()) by {
        assert forall|i: int| 0 <= i < 2 implies b.subrange(2, 4)[i] == spec_op_key()[i] by {
            assert(b[2 + i] == h[2 + i]);
        }
    }
    let hl = h.len() as int;
    assert(spec_item_end(b, 4) == Some(hl));
    assert(spec_items_end(b, hl, 0) == Some(hl));
    assert(spec_items_end(b, 4, 1) == Some(hl));
    assert(spec_items_end(b, 1, 2) == Some(hl));
    assert(spec_item_end(b, 0) == Some(hl));
}

/// Interpreting the encoded one-entry header `{op: x}`: `1` is a message
/// without a type, `-1` an error frame, anything else the invalid frame
/// type.
pub proof fn lemma_op_header_of(opm: nat, oparg: nat)
    requires
        opm < 2,
        oparg < 0x10000000000000000,
    ensures
        spec_header_of(spec_enc_op_header(opm, oparg)) == (if opm == 0 && oparg == 1 {
            SpecHeader::Msg(None)
        } else if opm == 1 && oparg == 0 {
            SpecHeader::Error
        } else {
            SpecHeader::BadType
        }),
{
    let h = spec_enc_op_header(opm, oparg);
    assert(h.subrange(0, h.len() as int) =~= h);
    lemma_op_header_items(h, opm, oparg);
    let hl = h.len() as int;
    assert(spec_keys_text(h, hl, 0));
    assert(spec_keys_text(h, 1, 1));
    assert(spec_find_key(h, 1, 1, spec_op_key()) == Some(4int));
    if opm == 0 && oparg == 1 {
        assert(!spec_key_at(h, 1, spec_t_key())) by {
            assert(h.subrange(2, 4).len() == 2);
        }
        assert(spec_find_key(h, hl, 0, spec_t_key()) is None);
        assert(spec_find_key(h, 1, 1, spec_t_key()) is None);
    }
}

/// The two-entry header `{op: 1, t: s}` is one self-delimited item
/// wherever it stands as a prefix.
proof fn lemma_msg_header_items(b: Seq<u8>, s: Seq<char>)
    requires
        encode_utf8(s).len() < 0x10000000000000000,
        spec_enc_msg_header(Some(s)).len() <= b.len(),
        b.subrange(0, spec_enc_msg_header(Some(s)).len() as int) == spec_enc_msg_header(Some(s)),
    ensures
        spec_head(b, 0) == Some((2nat, 1int)),
        b[0] / 32 == 5,
        spec_item_end(b, 1) == Some(4int),
        spec_key_at(b, 1, spec_op_key()),
        !spec_key_at(b, 1, spec_t_key()),
        b[1] / 32 == 3,
        spec_head(b, 4) == Some((1nat, 5int)),
        b[4] / 32 == 0,
        spec_item_end(b, 4) == Some(5int),
        spec_item_end(b, 5) == Some(7int),
        spec_key_at(b, 5, spec_t_key()),
        b[5] / 32 == 3,
        spec_item_end(b, 7) == Some(spec_enc_msg_header(Some(s)).len() as int),
        b[7] / 32 == 3,
        spec_head(b, 7) == Some(
            (
                encode_utf8(s).len(),
                spec_enc_msg_header(Some(s)).len() - encode_utf8(s).len(),
            ),
        ),
        b.subrange(
            spec_enc_msg_header(Some(s)).len() - encode_utf8(s).len(),
            spec_enc_msg_header(Some(s)).len() as int,
        ) == encode_utf8(s),
        spec_items_end(b, 1, 4) == Some(spec_enc_msg_header(Some(s)).len() as int),
        spec_item_end(b, 0) == Some(spec_enc_msg_header(Some(s)).len() as int),
{
    let h = spec_enc_msg_header(Some(s));
    let opkey = spec_enc_text(spec_op_key());
    let tkey = spec_enc_text(spec_t_key());
    let tval = spec_enc_text(encode_utf8(s));
    assert(opkey.len() == 3);
    assert(tkey.len() == 2);
    assert(h.len() == 7 + tval.len());
    assert(b.subrange(0, 1) =~= spec_enc_arg(5, 2)) by {
        assert(b[0] == h[0]);
    }
    lemma_head_of_enc(b, 0, 5, 2);
    assert(b.subrange(1, 4) =~= opkey) by {
        assert forall|i: int| 0 <= i < 3 implies b.subrange(1, 4)[i] == opkey[i] by {
            assert(b[1 + i] == h[1 + i]);
        }
    }
    lemma_text_item_of_enc(b, 1, spec_op_key());
    assert(b.subrange(2, 4) =~= spec_op_key()) by {
        assert forall|i: int| 0 <= i < 2 implies b.subrange(2, 4)[i] == spec_op_key()[i] by {
            assert(b[2 + i] == h[2 + i]);
        }
    }
    assert(b.subrange(4, 5) =~= spec_enc_arg(0, 1)) by {
        assert(b[4] == h[4]);
    }
    lemma_head_of_enc(b, 4, 0, 1);
    assert(b.subrange(5, 7) =~= tkey) by {
        assert forall|i: int| 0 <= i < 2 implies b.subrange(5, 7)[i] == tkey[i] by {
            assert(b[5 + i] == h[5 + i]);
        }
    }
    lemma_text_item_of_enc(b, 5, spec_t_key());
    assert(b.subrange(7, h.len() as int) =~= tval) by {
        assert forall|i: int| 0 <= i < tval.len() implies b.subrange(7, h.len() as int)[i]
            == tval[i] by {
            assert(b[7 + i] == h[7 + i]);
        }
    }
    lemma_text_item_of_enc(b, 7, encode_utf8(s));
    assert(!spec_key_at(b, 1, spec_t_key())) by {
        assert(b.subrange(2, 4).len() == 2);
    }
    let hl = h.len() as int;
    assert(spec_item_end(b, 4) == Some(5int));
    assert(spec_items_end(b, hl, 0) == Some(hl));
    assert(spec_items_end(b, 7, 1) == Some(hl));
    assert(spec_items_end(b, 5, 2) == Some(hl));
    assert(spec_items_end(b, 4, 3) == Some(hl));
    assert(spec_items_end(b, 1, 4) == Some(hl));
    assert(spec_item_end(b, 0) == Some(hl));
}

/// Interpreting the encoded header `{op: 1, t: s}` yields the message
/// header carrying `s`.
pub proof fn lemma_msg_header_of(s: Seq<char>)
    requires
        encode_utf8(s).len() < 0x10000000000000000,
    ensures
        spec_header_of(spec_enc_msg_header(Some(s))) == SpecHeader::Msg(Some(s)),
{
    let h = spec_enc_msg_header(Some(s));
    assert(h.subrange(0, h.len() as int) =~= h);
    lemma_msg_header_items(h, s);
    let hl = h.len() as int;
    assert(spec_keys_text(h, hl, 0));
    assert(spec_keys_text(h, 5, 1));
    assert(spec_keys_text(h, 1, 2));
    assert(spec_find_key(h, 1, 2, spec_op_key()) == Some(4int));
    assert(spec_find_key(h, 5, 1, spec_t_key()) == Some(7int));
    assert(spec_find_key(h, 1, 2, spec_t_key()) == Some(7int));
    vstd::utf8::encode_utf8_valid_utf8(s);
    encode_utf8_decode_utf8(s);
    assert(spec_t_value(h, 7) == SpecHeader::Msg(Some(s)));
}

/// For every message header — with or without a schema name — followed by
/// a non-empty body, decoding yields exactly that message frame; together
/// with the encoder's determinism, encoding and decoding are mutually
/// inverse on this subset of headers.
#[verifier::rlimit(50)]
pub proof fn lemma_message_frame_round_trip(t: Option<Seq<char>>, body: Seq<u8>)
    requires
        body.len() > 0,
        t matches Some(s) ==> encode_utf8(s).len() < 0x10000000000000000,
    ensures
        spec_frame_of(spec_enc_msg_header(t) + body) == SpecFrame::Msg(t, body),
{
    let h = spec_enc_msg_header(t);
    let b = h + body;
    let e = h.len() as int;
    assert(b.subrange(0, e) =~= h);
    match t {
        None => {
            assert(spec_enc_msg_header(None) =~= spec_enc_op_header(0, 1));
            lemma_op_header_items(b, 0, 1);
            lemma_op_header_of(0, 1);
        },
        Some(s) => {
            lemma_msg_header_items(b, s);
            lemma_msg_header_of(s);
        },
    }
    assert(spec_item_end(b, 0) == Some(e));
    assert(spec_header_of(b.subrange(0, e)) == SpecHeader::Msg(t));
    assert(b.subrange(e, b.len() as int) =~= body);
    assert(spec_frame_of(b) == SpecFrame::Msg(t, body));
}

/// Every header whose `op` is `-1`, followed by a non-empty body, decodes
/// to the error frame.
pub proof fn lemma_error_frame_round_trip(body: Seq<u8>)
    requires
        body.len() > 0,
    ensures
        spec_frame_of(spec_enc_error_header() + body) == SpecFrame::Error,
{
    let h = spec_enc_error_header();
    let b = h + body;
    assert(b.subrange(0, h.len() as int) =~= h);
    assert(spec_enc_error_header() =~= spec_enc_op_header(1, 0));
    lemma_op_header_items(b, 1, 0);
    lemma_op_header_of(1, 0);
    assert(b.subrange(h.len() as int, b.len() as int) =~= body);
}

/// Every header whose `op` is an integer other than `1` and `-1` fails
/// with the invalid frame type, whatever the body. Major type 0 encodes
/// the integer `arg`, major type 1 the integer `-1 - arg`.
pub proof fn lemma_invalid_op_is_rejected(opm: nat, oparg: nat, body: Seq<u8>)
    requires
        opm < 2,
        oparg < 0x10000000000000000,
        !(opm == 0 && oparg == 1),
        !(opm == 1 && oparg == 0),
        body.len() > 0,
    ensures
        spec_frame_of(spec_enc_op_header(opm, oparg) + body) == SpecFrame::BadType,
{
    let h = spec_enc_op_header(opm, oparg);
    let b = h + body;
    assert(b.subrange(0, h.len() as int) =~= h);
    lemma_op_header_items(b, opm, oparg);
    lemma_op_header_of(opm, oparg);
}

/// Every well-formed header map whose `op` value is an integer other than
/// `1` and `-1` is the invalid frame type, whatever other entries the map
/// holds and however they are arranged.
pub proof fn lemma_any_map_with_invalid_op(h: Seq<u8>)
    requires
        spec_head(h, 0) matches Some((n, ae)) && ({
            &&& h[0] / 32 == 5
            &&& spec_items_end(h, ae, 2 * n) == Some(h.len() as int)
            &&& spec_keys_text(h, ae, n)
            &&& spec_find_key(h, ae, n, spec_op_key()) matches Some(vp) && (spec_head(h, vp)
                matches Some((v, _)) && h[vp] / 32 <= 1 && !(h[vp] / 32 == 0 && v == 1) && !(h[vp]
                / 32 == 1 && v == 0))
        }),
    ensures
        spec_header_of(h) == SpecHeader::BadType,
{
}

/// Encoding a frame header and interpreting the encoded map yields the
/// header again: on the `{op, t?}` subset, encoding and decoding are
/// mutually inverse.
pub proof fn lemma_header_round_trip(fh: FrameHeader)
    requires
        fh matches FrameHeader::Message(Some(s)) ==> encode_utf8(s@).len()
            < 0x10000000000000000,
    ensures
        spec_header_of(spec_enc_frame_header(fh)) == (match fh {
            FrameHeader::Message(t) => SpecHeader::Msg(opt_str_view(t)),
            FrameHeader::Error => SpecHeader::Error,
        }),
{
    match fh {
        FrameHeader::Message(None) => {
            assert(spec_enc_msg_header(None) =~= spec_enc_op_header(0, 1));
            lemma_op_header_of(0, 1);
        },
        FrameHeader::Message(Some(s)) => {
            lemma_msg_header_of(s@);
        },
        FrameHeader::Error => {
            assert(spec_enc_error_header() =~= spec_enc_op_header(1, 0));
            lemma_op_header_of(1, 0);
        },
    }
}

/// Appends the `n` big-endian base-256 digits of `v`.
fn push_be(out: &mut Vec<u8>, v: u64, n: u8)
    ensures
        final(out)@ == old(out)@ + spec_be_bytes(v as nat, n as nat),
    decreases n,
{
    if n == 0 {
        proof {
            assert(old(out)@ + spec_be_bytes(v as nat, 0) =~= old(out)@);
        }
    } else {
        push_be(out, v / 0x100, n - 1);
        out.push((v % 0x100) as u8);
        proof {
            assert((v % 0x100) as u8 == ((v as nat) % 0x100) as u8);
            assert((v / 0x100) as nat == (v as nat) / 0x100);
            assert(old(out)@ + spec_be_bytes(v as nat, n as nat) =~= final(out)@);
        }
    }
}

/// Appends the minimal CBOR head for a major type and its argument.
fn push_arg(out: &mut Vec<u8>, major: u8, v: u64)
    requires
        major < 8,
    ensures
        final(out)@ == old(out)@ + spec_enc_arg(major as nat, v as nat),
{
    if v < 24 {
        out.push(major * 32 + v as u8);
        proof {
            assert(final(out)@ =~= old(out)@ + spec_enc_arg(major as nat, v as nat));
        }
    } else if v < 0x100 {
        out.push(major * 32 + 24);
        push_be(out, v, 1);
        proof {
            assert(final(out)@ =~= old(out)@ + spec_enc_arg(major as nat, v as nat));
        }
    } else if v < 0x10000 {
        out.push(major * 32 + 25);
        push_be(out, v, 2);
        proof {
            assert(final(out)@ =~= old(out)@ + spec_enc_arg(major as nat, v as nat));
        }
    } else if v < 0x100000000 {
        out.push(major * 32 + 26);
        push_be(out, v, 4);
        proof {
            assert(final(out)@ =~= old(out)@ + spec_enc_arg(major as nat, v as nat));
        }
    } else {
        out.push(major * 32 + 27);
        push_be(out, v, 8);
        proof {
            assert(final(out)@ =~= old(out)@ + spec_enc_arg(major as nat, v as nat));
        }
    }
}

/// Appends the encoded text key `"op"`.
fn push_op_key(out: &mut Vec<u8>)
    ensures
        final(out)@ == old(out)@ + spec_enc_text(spec_op_key()),
{
    push_arg(out, 3, 2);
    out.push(0x6f);
    out.push(0x70);
    proof {
        assert(final(out)@ =~= old(out)@ + spec_enc_text(spec_op_key()));
    }
}

/// Encodes a frame header back into its canonical CBOR map. Decoding what
/// this writes yields the header again.
#[verifier::loop_isolation(false)]
pub fn encode_header(h: &FrameHeader) -> (r: Vec<u8>)
    ensures
        r@ == spec_enc_frame_header(*h),
{
    let mut out: Vec<u8> = Vec::new();
    match h {
        FrameHeader::Error => {
            push_arg(&mut out, 5, 1);
            push_op_key(&mut out);
            push_arg(&mut out, 1, 0);
            proof {
                assert(out@ =~= spec_enc_error_header());
            }
        },
        FrameHeader::Message(None) => {
            push_arg(&mut out, 5, 1);
            push_op_key(&mut out);
            push_arg(&mut out, 0, 1);
            proof {
                assert(out@ =~= spec_enc_msg_header(None));
            }
        },
        FrameHeader::Message(Some(s)) => {
            push_arg(&mut out, 5, 2);
            push_op_key(&mut out);
            push_arg(&mut out, 0, 1);
            push_arg(&mut out, 3, 1);
            out.push(0x74);
            let sb = s.as_str().as_bytes();
            push_arg(&mut out, 3, sb.len() as u64);
            let ghost mid = out@;
            let mut i: usize = 0;
            while i < sb.len()
                invariant
                    i <= sb@.len(),
                    out@ == mid + sb@.subrange(0, i as int),
                decreases sb@.len() - i,
            {
                out.push(sb[i]);
                proof {
                    assert(out@ =~= mid + sb@.subrange(0, i + 1));
                }
                i = i + 1;
            }
            proof {
                assert(sb@.subrange(0, sb@.len() as int) =~= sb@);
                assert(out@ =~= spec_enc_msg_header(Some(s@)));
            }
        },
    }
    out
}

/// The sub-slice of `b` from `from` (inclusive) to `to` (exclusive).
fn slice_range<'a>(b: &'a [u8], from: usize, to: usize) -> (r: &'a [u8])
    requires
        from <= to <= b@.len(),
    ensures
        r@ == b@.subrange(from as int, to as int),
{
    &b[from..to]
}

impl Frame {
    /// Decodes a raw websocket payload into a frame: one self-delimited
    /// CBOR header item followed by the (non-empty) body bytes.
    pub fn try_from(value: &[u8]) -> (r: Result<Frame, Error>)
        ensures
            match r {
                Ok(Frame::Message(t, mf)) => spec_frame_of(value@) == SpecFrame::Msg(
                    opt_str_view(t),
                    mf.body@,
                ),
                Ok(Frame::Error(_)) => spec_frame_of(value@) == SpecFrame::Error,
                Err(Error::InvalidFrameType(d)) => spec_frame_of(value@) == SpecFrame::BadType && (
                spec_item_end(value@, 0) matches Some(e) && d@ == value@.subrange(0, e)),
                Err(Error::InvalidFrameData(d)) => spec_frame_of(value@) == SpecFrame::BadData
                    && d@ == value@,
                Err(Error::CborDecode(_)) => false,
            },
    {
        let e = match skip_item(value, 0) {
            None => {
                return Err(Error::InvalidFrameData(slice_to_vec(value)));
            },
            Some(e) => e,
        };
        if e >= value.len() {
            return Err(Error::InvalidFrameData(slice_to_vec(value)));
        }
        let header = slice_range(value, 0, e);
        let body = slice_range(value, e, value.len());
        match FrameHeader::try_from(header) {
            Ok(FrameHeader::Message(t)) => Ok(
                Frame::Message(t, MessageFrame { body: slice_to_vec(body) }),
            ),
            Ok(FrameHeader::Error) => Ok(Frame::Error(ErrorFrame {  })),
            Err(Error::InvalidFrameData(_)) => Err(Error::InvalidFrameData(slice_to_vec(value))),
            Err(err) => Err(err),
        }
    }
}

} // verus!
