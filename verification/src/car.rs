//! Pre-validation of the CAR v1 wire framing.
//!
//! The CAR reader this library delegates to asserts a few shape conditions
//! of its input instead of reporting them: a block identifier whose version
//! varint is neither 0 nor 1 (outside the implicit version-0 prefix), a
//! declared multihash digest longer than the reader's 64-byte buffer, a
//! declared block length shorter than the identifier it frames, and the
//! version-2 container layout. The checker here walks the framing exactly
//! as the reader does — including its varint dialect, which has no
//! minimality rule, caps encodings at ten bytes, and keeps only the low
//! bit of the tenth — and accepts every stream the reader decodes, so the
//! commit decoder can report the refused streams as CAR errors without
//! handing them to the reader.

use vstd::prelude::*;
use crate::cbor::{lemma_items_end_bounds, read_head, skip_item, skip_items, spec_head, spec_item_end, spec_items_end};
use crate::frame::{key_at, spec_key_at};

verus! {

/// `0x80^i`: the place value of the `i`-th varint byte.
pub open spec fn spec_weight(i: nat) -> nat
    decreases i,
{
    if i == 0 {
        1
    } else {
        0x80 * spec_weight((i - 1) as nat)
    }
}

proof fn lemma_weight_vals()
    ensures
        spec_weight(0) == 1,
        spec_weight(1) == 0x80,
        spec_weight(2) == 0x4000,
        spec_weight(3) == 0x200000,
        spec_weight(4) == 0x10000000,
        spec_weight(5) == 0x800000000,
        spec_weight(6) == 0x40000000000,
        spec_weight(7) == 0x2000000000000,
        spec_weight(8) == 0x100000000000000,
        spec_weight(9) == 0x8000000000000000,
{
    assert(spec_weight(0) == 1);
    assert(spec_weight(1) == 0x80);
    assert(spec_weight(2) == 0x4000);
    assert(spec_weight(3) == 0x200000);
    assert(spec_weight(4) == 0x10000000);
    assert(spec_weight(5) == 0x800000000);
    assert(spec_weight(6) == 0x40000000000);
    assert(spec_weight(7) == 0x2000000000000);
    assert(spec_weight(8) == 0x100000000000000);
    assert(spec_weight(9) == 0x8000000000000000);
}

proof fn lemma_weight_le(i: nat)
    requires
        i <= 9,
    ensures
        1 <= spec_weight(i) <= 0x8000000000000000,
        i <= 8 ==> spec_weight(i) <= 0x100000000000000,
{
    lemma_weight_vals();
    if i == 0 {
    } else if i == 1 {
    } else if i == 2 {
    } else if i == 3 {
    } else if i == 4 {
    } else if i == 5 {
    } else if i == 6 {
    } else if i == 7 {
    } else if i == 8 {
    } else {
    }
}

/// Value and end position of the varint at `pos` as the CAR reader parses
/// it, starting at byte index `i`: seven low bits per byte in little-endian
/// order, at most ten bytes, with only the low bit of the tenth kept.
/// `None` where the reader sees end-of-input or an unterminated tenth byte.
pub open spec fn spec_wire_varint_at(b: Seq<u8>, pos: int, i: nat) -> Option<(nat, int)>
    decreases 10 - i,
{
    if i >= 10 {
        None
    } else if !(0 <= pos < b.len()) {
        None
    } else {
        let g = (b[pos] % 0x80) as nat;
        let gg = if i == 9 {
            g % 2
        } else {
            g
        };
        if b[pos] < 0x80 {
            Some((gg * spec_weight(i), pos + 1))
        } else {
            match spec_wire_varint_at(b, pos + 1, i + 1) {
                None => None,
                Some((rest, e)) => Some((gg * spec_weight(i) + rest, e)),
            }
        }
    }
}

/// True when parsing the varint at `pos` runs off the end of the input —
/// the reader treats that as a clean end of the block stream.
pub open spec fn spec_wire_varint_truncated(b: Seq<u8>, pos: int, i: nat) -> bool
    decreases 10 - i,
{
    if i >= 10 {
        false
    } else if pos >= b.len() {
        true
    } else if b[pos] < 0x80 {
        false
    } else {
        spec_wire_varint_truncated(b, pos + 1, i + 1)
    }
}

proof fn lemma_wire_varint_bounds(b: Seq<u8>, pos: int, i: nat)
    ensures
        spec_wire_varint_at(b, pos, i) matches Some((v, e)) ==> pos < e <= b.len() && v
            + spec_weight(i) <= 0x10000000000000000,
    decreases 10 - i,
{
    if i < 10 && 0 <= pos < b.len() && spec_wire_varint_at(b, pos, i) is Some {
        lemma_weight_le(i);
        let w = spec_weight(i);
        let g = (b[pos] % 0x80) as nat;
        let gg = if i == 9 {
            g % 2
        } else {
            g
        };
        if b[pos] < 0x80 {
            if i == 9 {
                assert(gg * w <= 1 * w) by (nonlinear_arith)
                    requires
                        gg <= 1,
                        w >= 0,
                ;
            } else {
                lemma_weight_le((i + 1) as nat);
                assert(gg * w + w <= 128 * w) by (nonlinear_arith)
                    requires
                        gg <= 127,
                        w >= 0,
                ;
                assert(128 * w == spec_weight(i + 1));
            }
        } else {
            lemma_wire_varint_bounds(b, pos + 1, (i + 1) as nat);
            lemma_weight_le((i + 1) as nat);
            let (rest, _e) = spec_wire_varint_at(b, pos + 1, (i + 1) as nat).unwrap();
            assert(gg * w + w <= 128 * w) by (nonlinear_arith)
                requires
                    gg <= 127,
                    w >= 0,
            ;
            assert(128 * w == spec_weight(i + 1));
        }
    }
}

/// Outcome of reading one wire varint.
enum WireVarint {
    Val(u64, usize),
    Truncated,
    Bad,
}

/// Reads the wire varint at `pos`, starting at byte index `i` with place
/// value `w`.
fn wire_varint(b: &[u8], pos: usize, i: u8, w: u64) -> (r: WireVarint)
    requires
        i <= 9,
        w == spec_weight(i as nat),
    ensures
        match r {
            WireVarint::Val(v, e) => spec_wire_varint_at(b@, pos as int, i as nat) == Some(
                (v as nat, e as int),
            ) && pos < e <= b@.len(),
            WireVarint::Truncated => spec_wire_varint_at(b@, pos as int, i as nat) is None
                && spec_wire_varint_truncated(b@, pos as int, i as nat),
            WireVarint::Bad => spec_wire_varint_at(b@, pos as int, i as nat) is None
                && !spec_wire_varint_truncated(b@, pos as int, i as nat),
        },
    decreases 10 - i,
{
    proof {
        lemma_weight_le(i as nat);
        lemma_wire_varint_bounds(b@, pos as int, i as nat);
    }
    if pos >= b.len() {
        return WireVarint::Truncated;
    }
    let byte = b[pos];
    let g = byte % 0x80;
    if byte < 0x80 {
        let gg: u64 = if i == 9 {
            (g % 2) as u64
        } else {
            g as u64
        };
        proof {
            if i == 9 {
                assert(gg * w <= 0x8000000000000000) by (nonlinear_arith)
                    requires
                        gg <= 1,
                        w <= 0x8000000000000000,
                ;
            } else {
                assert(gg * w <= 127 * 0x100000000000000) by (nonlinear_arith)
                    requires
                        gg <= 127,
                        w <= 0x100000000000000,
                ;
            }
        }
        WireVarint::Val(gg * w, pos + 1)
    } else if i == 9 {
        proof {
            assert(!spec_wire_varint_truncated(b@, pos + 1, 10));
        }
        WireVarint::Bad
    } else {
        match wire_varint(b, pos + 1, i + 1, w * 0x80) {
            WireVarint::Val(rest, e) => {
                proof {
                    lemma_wire_varint_bounds(b@, pos + 1, (i + 1) as nat);
                    assert(spec_weight((i + 1) as nat) == 0x80 * w);
                    assert(rest + 0x80 * (w as nat) <= 0x10000000000000000);
                    assert((g as nat) * w <= 127 * (w as nat)) by (nonlinear_arith)
                        requires
                            g < 128,
                            w >= 0,
                    ;
                    assert((g as nat) * w + rest + w <= 0x10000000000000000);
                }
                WireVarint::Val((g as u64) * w + rest, e)
            },
            WireVarint::Truncated => WireVarint::Truncated,
            WireVarint::Bad => WireVarint::Bad,
        }
    }
}

/// End position of the block identifier at `pos` as the reader parses it,
/// or `None` where the reader would fail or assert: an implicit version-0
/// prefix (`0x12 0x20`) is followed by a 32-byte digest; an explicit
/// version must be 1 and its multihash must declare at most 64 digest
/// bytes.
pub open spec fn spec_wire_cid_end(b: Seq<u8>, pos: int) -> Option<int> {
    match spec_wire_varint_at(b, pos, 0) {
        None => None,
        Some((version, p1)) => match spec_wire_varint_at(b, p1, 0) {
            None => None,
            Some((codec, p2)) => {
                if version == 0x12 && codec == 0x20 {
                    if p2 + 32 <= b.len() {
                        Some(p2 + 32)
                    } else {
                        None
                    }
                } else if version == 1 {
                    match spec_wire_varint_at(b, p2, 0) {
                        None => None,
                        Some((_code, p3)) => match spec_wire_varint_at(b, p3, 0) {
                            None => None,
                            Some((size, p4)) => if size <= 64 && p4 + size <= b.len() {
                                Some(p4 + size)
                            } else {
                                None
                            },
                        },
                    }
                } else {
                    None
                }
            },
        },
    }
}

/// Reads past the block identifier at `pos`.
fn wire_cid_end(b: &[u8], pos: usize) -> (r: Option<usize>)
    ensures
        match r {
            Some(e) => spec_wire_cid_end(b@, pos as int) == Some(e as int) && pos < e <= b@.len(),
            None => spec_wire_cid_end(b@, pos as int) is None,
        },
{
    let (version, p1) = match wire_varint(b, pos, 0, 1) {
        WireVarint::Val(v, e) => (v, e),
        _ => {
            return None;
        },
    };
    let (codec, p2) = match wire_varint(b, p1, 0, 1) {
        WireVarint::Val(v, e) => (v, e),
        _ => {
            return None;
        },
    };
    if version == 0x12 && codec == 0x20 {
        if b.len() - p2 >= 32 {
            Some(p2 + 32)
        } else {
            None
        }
    } else if version == 1 {
        let p3 = match wire_varint(b, p2, 0, 1) {
            WireVarint::Val(_, e) => e,
            _ => {
                return None;
            },
        };
        let (size, p4) = match wire_varint(b, p3, 0, 1) {
            WireVarint::Val(v, e) => (v, e),
            _ => {
                return None;
            },
        };
        if size <= 64 && size <= (b.len() - p4) as u64 {
            Some(p4 + size as usize)
        } else {
            None
        }
    } else {
        None
    }
}

/// The block stream from `pos` to the end of the input, as the reader
/// walks it: each block is a length varint, an identifier, and the
/// remaining payload bytes; the stream ends cleanly at the end of input or
/// on a length varint cut off by it. `false` wherever the reader would
/// error or assert.
pub open spec fn spec_wire_blocks_ok(b: Seq<u8>, pos: int) -> bool
    decreases b.len() - pos,
{
    if pos >= b.len() {
        true
    } else {
        match spec_wire_varint_at(b, pos, 0) {
            None => spec_wire_varint_truncated(b, pos, 0),
            Some((len, p1)) => {
                if len == 0 || len > 0x40000000 {
                    false
                } else {
                    match spec_wire_cid_end(b, p1) {
                        None => false,
                        Some(cend) => {
                            &&& cend - p1 <= len
                            &&& p1 + len <= b.len()
                            &&& pos < p1 + len
                            &&& spec_wire_blocks_ok(b, p1 + len)
                        },
                    }
                }
            },
        }
    }
}

/// Walks the block stream from `pos`.
#[verifier::loop_isolation(false)]
fn wire_blocks_ok(b: &[u8], pos: usize) -> (r: bool)
    ensures
        r == spec_wire_blocks_ok(b@, pos as int),
{
    let mut cur: usize = pos;
    loop
        invariant
            pos <= cur,
            spec_wire_blocks_ok(b@, pos as int) == spec_wire_blocks_ok(b@, cur as int),
        decreases b@.len() - cur,
    {
        if cur >= b.len() {
            return true;
        }
        let (len, p1) = match wire_varint(b, cur, 0, 1) {
            WireVarint::Val(v, e) => (v, e),
            WireVarint::Truncated => {
                return true;
            },
            WireVarint::Bad => {
                return false;
            },
        };
        if len == 0 || len > 0x40000000 {
            return false;
        }
        let cend = match wire_cid_end(b, p1) {
            Some(e) => e,
            None => {
                return false;
            },
        };
        if (cend - p1) as u64 > len {
            return false;
        }
        if len > (b.len() - p1) as u64 {
            return false;
        }
        cur = p1 + len as usize;
    }
}

/// The bytes of the key `"version"`.
pub open spec fn spec_version_key() -> Seq<u8> {
    seq![0x76u8, 0x65u8, 0x72u8, 0x73u8, 0x69u8, 0x6fu8, 0x6eu8]
}

/// Position of the value bound to the last occurrence of the text key
/// `key` among the `n` map entries starting at `pos` — the binding a
/// map built by successive insertion keeps.
pub open spec fn spec_find_key_last(h: Seq<u8>, pos: int, n: nat, key: Seq<u8>) -> Option<int>
    decreases n,
{
    if n == 0 {
        None
    } else {
        match spec_item_end(h, pos) {
            None => None,
            Some(ke) => match spec_item_end(h, ke) {
                None => None,
                Some(ve) => {
                    let rest = spec_find_key_last(h, ve, (n - 1) as nat, key);
                    if rest is Some {
                        rest
                    } else if spec_key_at(h, pos, key) {
                        Some(ke)
                    } else {
                        None
                    }
                },
            },
        }
    }
}

/// Finds the value position of the last entry with text key `key`.
#[verifier::loop_isolation(false)]
fn find_key_last(h: &[u8], pos: usize, n: usize, key: &[u8]) -> (r: Option<usize>)
    ensures
        match r {
            Some(vp) => spec_find_key_last(h@, pos as int, n as nat, key@) == Some(vp as int),
            None => spec_find_key_last(h@, pos as int, n as nat, key@) is None,
        },
{
    let mut cur: usize = pos;
    let mut rem: usize = n;
    let mut found: Option<usize> = None;
    while rem > 0
        invariant
            rem <= n,
            spec_find_key_last(h@, pos as int, n as nat, key@) == (match spec_find_key_last(
                h@,
                cur as int,
                rem as nat,
                key@,
            ) {
                Some(v) => Some(v),
                None => (match found {
                    Some(f) => Some(f as int),
                    None => None,
                }),
            }),
        decreases rem,
    {
        let ke = match skip_item(h, cur) {
            Some(ke) => ke,
            None => {
                return found;
            },
        };
        let ve = match skip_item(h, ke) {
            Some(ve) => ve,
            None => {
                return found;
            },
        };
        if key_at(h, cur, key) {
            found = Some(ke);
        }
        cur = ve;
        rem = rem - 1;
    }
    found
}

/// The decoded CAR header names container version 1: the header bytes are
/// one CBOR map whose last `version` entry is the unsigned integer 1. The
/// reader's version-2 layout is excluded; every other shape the reader
/// itself rejects.
pub open spec fn spec_car_header_v1(h: Seq<u8>) -> bool {
    match spec_head(h, 0) {
        None => false,
        Some((n, ae)) => {
            &&& h[0] / 32 == 5
            &&& spec_items_end(h, ae, 2 * n) == Some(h.len() as int)
            &&& (match spec_find_key_last(h, ae, n, spec_version_key()) {
                None => false,
                Some(vp) => spec_head(h, vp) matches Some((v, _)) && h[vp] / 32 == 0 && v == 1,
            })
        },
    }
}

/// Checks the decoded CAR header for container version 1.
fn car_header_v1(h: &[u8]) -> (r: bool)
    ensures
        r == spec_car_header_v1(h@),
{
    let (n, ae) = match read_head(h, 0) {
        None => {
            return false;
        },
        Some(v) => v,
    };
    if h[0] / 32 != 5 {
        return false;
    }
    if n > ((h.len() - ae) / 2) as u64 {
        proof {
            lemma_items_end_bounds(h@, ae as int, 2 * n as nat);
        }
        return false;
    }
    match skip_items(h, ae, 2 * (n as usize)) {
        Some(e) if e == h.len() => {},
        _ => {
            return false;
        },
    }
    let mut version_key: Vec<u8> = Vec::new();
    version_key.push(0x76);
    version_key.push(0x65);
    version_key.push(0x72);
    version_key.push(0x73);
    version_key.push(0x69);
    version_key.push(0x6f);
    version_key.push(0x6e);
    proof {
        assert(version_key@ =~= spec_version_key());
    }
    let vp = match find_key_last(h, ae, n as usize, version_key.as_slice()) {
        None => {
            return false;
        },
        Some(vp) => vp,
    };
    let (v, _) = match read_head(h, vp) {
        None => {
            return false;
        },
        Some(hd) => hd,
    };
    h[vp] / 32 == 0 && v == 1
}

/// The whole stream as the reader walks it: a header varint and header
/// bytes naming container version 1, then the block stream. Exactly the
/// inputs this accepts are handed to the CAR reader.
pub open spec fn spec_car_wire_ok(b: Seq<u8>) -> bool {
    match spec_wire_varint_at(b, 0, 0) {
        None => false,
        Some((hlen, p1)) => {
            &&& hlen <= 0x100000
            &&& p1 + hlen <= b.len()
            &&& spec_car_header_v1(b.subrange(p1, p1 + hlen))
            &&& spec_wire_blocks_ok(b, p1 + hlen)
        },
    }
}

/// Checks the CAR framing of `b` before it is handed to the reader.
pub fn car_wire_ok(b: &[u8]) -> (r: bool)
    ensures
        r == spec_car_wire_ok(b@),
{
    let (hlen, p1) = match wire_varint(b, 0, 0, 1) {
        WireVarint::Val(v, e) => (v, e),
        _ => {
            return false;
        },
    };
    if hlen > 0x100000 {
        return false;
    }
    if hlen > (b.len() - p1) as u64 {
        return false;
    }
    let header = header_slice(b, p1, p1 + hlen as usize);
    if !car_header_v1(header) {
        return false;
    }
    wire_blocks_ok(b, p1 + hlen as usize)
}

/// The sub-slice of `b` from `from` (inclusive) to `to` (exclusive).
fn header_slice<'a>(b: &'a [u8], from: usize, to: usize) -> (r: &'a [u8])
    requires
        from <= to <= b@.len(),
    ensures
        r@ == b@.subrange(from as int, to as int),
{
    &b[from..to]
}

} // verus!
