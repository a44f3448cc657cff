//! Content identifiers as plain values.
//!
//! The CBOR decoder and the CAR decoder each hand this library the three
//! parts of a content identifier — version, codec, and the raw multihash
//! bytes — read off their own representations. `CidOld` holds the parts as
//! they come from the CAR block table; converting them into a validated
//! [`Cid`] re-checks exactly what the multihash and CID constructors of the
//! content-addressing libraries enforce: the multihash must be a well-formed
//! `varint(code) varint(size) digest` encoding with `size <= 64`, and a
//! version-0 identifier must be `dag-pb` + `sha2-256` with a 32-byte digest.

use vstd::prelude::*;

verus! {

/// The parts of a content identifier as read from the CAR block table,
/// before validation.
#[derive(Debug, Clone)]
pub struct CidOld {
    pub version: u8,
    pub codec: u64,
    pub multihash: Vec<u8>,
}

/// A validated content identifier.
#[derive(Debug, Clone)]
pub struct Cid {
    pub version: u8,
    pub codec: u64,
    pub multihash: Vec<u8>,
}

/// The mathematical value of a content identifier: its three parts.
pub struct CidParts {
    pub version: u8,
    pub codec: u64,
    pub multihash: Seq<u8>,
}

impl View for CidOld {
    type V = CidParts;

    open spec fn view(&self) -> CidParts {
        CidParts { version: self.version, codec: self.codec, multihash: self.multihash@ }
    }
}

impl View for Cid {
    type V = CidParts;

    open spec fn view(&self) -> CidParts {
        CidParts { version: self.version, codec: self.codec, multihash: self.multihash@ }
    }
}

/// Why a set of identifier parts was rejected.
#[derive(Debug, Clone, PartialEq, Eq)]
pub enum CidError {
    /// The multihash bytes are not `varint(code) varint(size)` followed by
    /// exactly `size` digest bytes with `size <= 64`.
    InvalidMultihash,
    /// The version byte is neither 0 nor 1.
    InvalidVersion,
    /// A version-0 identifier whose codec is not `dag-pb` or whose
    /// multihash is not a 32-byte `sha2-256`.
    InvalidV0,
}

/// Value and end position of the unsigned LEB128 varint at `pos`: each byte
/// contributes 7 low bits, a clear high bit ends the encoding, and a
/// multi-byte encoding whose continuation contributes nothing is rejected
/// as non-minimal.
pub open spec fn spec_varint_at(b: Seq<u8>, pos: int) -> Option<(nat, int)>
    decreases b.len() - pos,
{
    if 0 <= pos < b.len() {
        let byte = b[pos];
        if byte < 0x80 {
            Some((byte as nat, pos + 1))
        } else {
            match spec_varint_at(b, pos + 1) {
                None => None,
                Some((hi, end)) => if hi == 0 {
                    None
                } else {
                    Some((((byte - 0x80) as nat) + 0x80 * hi, end))
                },
            }
        }
    } else {
        None
    }
}

/// The minimal unsigned LEB128 encoding of `v`.
pub open spec fn spec_varint(v: nat) -> Seq<u8>
    decreases v,
{
    if v < 0x80 {
        seq![v as u8]
    } else {
        seq![((v % 0x80) + 0x80) as u8] + spec_varint(v / 0x80)
    }
}

/// Decoding reads back exactly what the encoding wrote, wherever the
/// encoded bytes sit in a larger buffer.
pub proof fn lemma_varint_roundtrip(b: Seq<u8>, pos: int, v: nat)
    requires
        0 <= pos,
        pos + spec_varint(v).len() <= b.len(),
        b.subrange(pos, pos + spec_varint(v).len()) == spec_varint(v),
    ensures
        spec_varint_at(b, pos) == Some((v, pos + spec_varint(v).len())),
    decreases v,
{
    let enc = spec_varint(v);
    assert(b[pos] == enc[0]);
    if v < 0x80 {
    } else {
        let rest = spec_varint(v / 0x80);
        assert forall|i: int| 0 <= i < rest.len() implies b[pos + 1 + i] == rest[i] by {
            assert(enc[1 + i] == rest[i]);
            assert(b[pos + 1 + i] == enc[1 + i]);
        }
        assert(b.subrange(pos + 1, pos + 1 + rest.len()) =~= rest);
        lemma_varint_roundtrip(b, pos + 1, v / 0x80);
        assert(v / 0x80 > 0);
        assert(((b[pos] - 0x80) as nat) + 0x80 * (v / 0x80) == v) by {
            assert(b[pos] == (v % 0x80) + 0x80);
            assert(0x80 * (v / 0x80) + v % 0x80 == v) by (nonlinear_arith);
        }
    }
}

/// Reads the varint at `pos`, bounded to a `u64`.
pub fn varint_at(b: &[u8], pos: usize) -> (r: Option<(u64, usize)>)
    ensures
        match r {
            Some((v, e)) => spec_varint_at(b@, pos as int) == Some((v as nat, e as int)),
            None => match spec_varint_at(b@, pos as int) {
                Some((v, _)) => v > u64::MAX,
                None => true,
            },
        },
    decreases b@.len() - pos,
{
    if pos >= b.len() {
        return None;
    }
    let byte = b[pos];
    if byte < 0x80 {
        Some((byte as u64, pos + 1))
    } else {
        match varint_at(b, pos + 1) {
            None => {
                proof {
                    if spec_varint_at(b@, pos as int) is Some {
                        let (hi, _) = spec_varint_at(b@, pos + 1).unwrap();
                        assert(0x80 * hi >= hi) by (nonlinear_arith);
                    }
                }
                None
            },
            Some((hi, e)) => {
                if hi == 0 {
                    None
                } else if hi > (u64::MAX - ((byte - 0x80) as u64)) / 0x80 {
                    proof {
                        let low = (byte - 0x80) as nat;
                        assert(low + 0x80 * hi > u64::MAX) by (nonlinear_arith)
                            requires
                                hi > ((u64::MAX - low) / 0x80) as nat,
                                low < 0x80,
                        ;
                    }
                    None
                } else {
                    proof {
                        let low = (byte - 0x80) as nat;
                        assert(low + 0x80 * hi <= u64::MAX) by (nonlinear_arith)
                            requires
                                hi <= ((u64::MAX - low) / 0x80) as nat,
                                low < 0x80,
                                hi >= 1,
                        ;
                    }
                    Some(((byte - 0x80) as u64 + 0x80 * hi, e))
                }
            },
        }
    }
}

/// Appends the minimal LEB128 encoding of `v` to `out`.
#[verifier::loop_isolation(false)]
pub fn varint_push(out: &mut Vec<u8>, v: u64)
    ensures
        final(out)@ == old(out)@ + spec_varint(v as nat),
{
    let mut x = v;
    while x >= 0x80
        invariant
            old(out)@ + spec_varint(v as nat) == out@ + spec_varint(x as nat),
        decreases x,
    {
        out.push((x % 0x80 + 0x80) as u8);
        proof {
            assert(spec_varint(x as nat) == seq![((x as nat % 0x80) + 0x80) as u8] + spec_varint(
                x as nat / 0x80,
            ));
            assert(old(out)@ + spec_varint(v as nat) =~= out@ + spec_varint(x as nat / 0x80));
        }
        x = x / 0x80;
    }
    out.push(x as u8);
    proof {
        assert(old(out)@ + spec_varint(v as nat) =~= out@);
    }
}

/// The code and size of a well-formed multihash: `varint(code)
/// varint(size)` followed by exactly `size` digest bytes, `size <= 64`,
/// with both varints fitting a `u64`.
pub open spec fn spec_multihash_parts(mh: Seq<u8>) -> Option<(nat, nat)> {
    match spec_varint_at(mh, 0) {
        None => None,
        Some((code, p1)) => match spec_varint_at(mh, p1) {
            None => None,
            Some((size, p2)) => if code <= u64::MAX && size <= 64 && mh.len() == p2 + size {
                Some((code, size))
            } else {
                None
            },
        },
    }
}

pub open spec fn spec_multihash_wf(mh: Seq<u8>) -> bool {
    spec_multihash_parts(mh) is Some
}

/// Well-formedness of identifier parts: the multihash parses, the version
/// is 0 or 1, and version 0 is restricted to `dag-pb` + 32-byte `sha2-256`.
pub open spec fn spec_cid_wf(c: CidParts) -> bool {
    &&& spec_multihash_wf(c.multihash)
    &&& (c.version == 0 || c.version == 1)
    &&& (c.version == 0 ==> c.codec == 0x70 && spec_multihash_parts(c.multihash) == Some(
        (0x12 as nat, 32 as nat),
    ))
}

/// The binary encoding of an identifier: a version-0 identifier is its bare
/// multihash; a version-1 identifier is `varint(1) varint(codec)` followed
/// by the multihash.
pub open spec fn spec_cid_to_bytes(c: CidParts) -> Seq<u8> {
    if c.version == 0 {
        c.multihash
    } else {
        seq![1u8] + spec_varint(c.codec as nat) + c.multihash
    }
}

/// Conversion from the raw CAR-side parts to a validated identifier: the
/// parts pass unchanged when they are well formed, and are rejected
/// otherwise.
pub open spec fn spec_cid_convert(o: CidParts) -> Option<CidParts> {
    if spec_cid_wf(o) {
        Some(o)
    } else {
        None
    }
}

impl Cid {
    /// Validates the raw parts read from a CAR block table.
    ///
    /// This performs the same checks as re-parsing the multihash bytes and
    /// rebuilding the identifier in the content-addressing libraries: the
    /// multihash must be well formed and a version-0 identifier must be
    /// `dag-pb` + 32-byte `sha2-256`.
    pub fn try_from(value: CidOld) -> (r: Result<Cid, CidError>)
        ensures
            match r {
                Ok(c) => spec_cid_convert(value@) == Some(c@),
                Err(_) => spec_cid_convert(value@) is None,
            },
    {
        let (code, p1) = match varint_at(value.multihash.as_slice(), 0) {
            None => {
                return Err(CidError::InvalidMultihash);
            },
            Some(h) => h,
        };
        let (size, p2) = match varint_at(value.multihash.as_slice(), p1) {
            None => {
                return Err(CidError::InvalidMultihash);
            },
            Some(h) => h,
        };
        if !(size <= 64 && size == (value.multihash.len() - p2) as u64) {
            return Err(CidError::InvalidMultihash);
        }
        if value.version == 0 {
            if !(value.codec == 0x70 && code == 0x12 && size == 32) {
                return Err(CidError::InvalidV0);
            }
        } else if value.version != 1 {
            return Err(CidError::InvalidVersion);
        }
        Ok(Cid { version: value.version, codec: value.codec, multihash: value.multihash })
    }

    /// The binary encoding of this identifier.
    pub fn to_bytes(&self) -> (r: Vec<u8>)
        ensures
            r@ == spec_cid_to_bytes(self@),
    {
        cid_parts_to_bytes(self.version, self.codec, &self.multihash)
    }
}

impl CidOld {
    /// The binary encoding of the raw parts, as the CAR side would write it.
    pub fn to_bytes(&self) -> (r: Vec<u8>)
        ensures
            r@ == spec_cid_to_bytes(self@),
    {
        cid_parts_to_bytes(self.version, self.codec, &self.multihash)
    }
}

/// Writes `version (codec) multihash` as the identifier encoding.
#[verifier::loop_isolation(false)]
fn cid_parts_to_bytes(version: u8, codec: u64, multihash: &Vec<u8>) -> (r: Vec<u8>)
    ensures
        r@ == spec_cid_to_bytes(CidParts { version, codec, multihash: multihash@ }),
{
    let ghost parts = CidParts { version, codec, multihash: multihash@ };
    let mut out: Vec<u8> = Vec::new();
    if version != 0 {
        out.push(1);
        proof {
            assert(out@ =~= seq![1u8]);
        }
        varint_push(&mut out, codec);
    }
    let mut i: usize = 0;
    let ghost prefix = out@;
    while i < multihash.len()
        invariant
            i <= multihash@.len(),
            out@ == prefix + multihash@.subrange(0, i as int),
        decreases multihash@.len() - i,
    {
        out.push(multihash[i]);
        proof {
            assert(out@ =~= prefix + multihash@.subrange(0, i + 1));
        }
        i = i + 1;
    }
    proof {
        assert(multihash@.subrange(0, multihash@.len() as int) =~= multihash@);
        if version != 0 {
            assert(out@ =~= spec_cid_to_bytes(parts));
        } else {
            assert(out@ =~= spec_cid_to_bytes(parts));
        }
    }
    out
}

impl PartialEq for Cid {
    /// Equality of identifiers is equality of the three parts.
    fn eq(&self, other: &Cid) -> (r: bool) {
        let r = self.version == other.version && self.codec == other.codec && self.multihash
            == other.multihash;
        proof {
            if r {
                assert(self.multihash@ =~= other.multihash@);
            } else if self@ == other@ {
                assert(self.multihash@ == other.multihash@);
            }
        }
        r
    }
}

impl vstd::std_specs::cmp::PartialEqSpecImpl for Cid {
    open spec fn obeys_eq_spec() -> bool {
        true
    }

    open spec fn eq_spec(&self, other: &Cid) -> bool {
        self@ == other@
    }
}

/// Two well-formed identifiers are equal exactly when their binary
/// encodings are equal; in particular, converting raw CAR-side parts keeps
/// both the encoding and equality, since conversion keeps the parts.
pub proof fn lemma_cid_bytes_injective(a: CidParts, b: CidParts)
    requires
        spec_cid_wf(a),
        spec_cid_wf(b),
    ensures
        (spec_cid_to_bytes(a) == spec_cid_to_bytes(b)) <==> a == b,
{
    if spec_cid_to_bytes(a) == spec_cid_to_bytes(b) {
        lemma_wf_multihash_nonempty(a);
        lemma_wf_multihash_nonempty(b);
        if a.version == 0 && b.version == 0 {
            assert(a.multihash == b.multihash);
        } else if a.version == 0 || b.version == 0 {
            // one encoding starts with 0x12 (the single-byte varint of the
            // sha2-256 code), the other with the version byte 1
            assert(spec_cid_to_bytes(a)[0] == spec_cid_to_bytes(b)[0]);
            assert(false);
        } else {
            let ea = spec_varint(a.codec as nat) + a.multihash;
            let eb = spec_varint(b.codec as nat) + b.multihash;
            assert(ea =~= spec_cid_to_bytes(a).subrange(1, spec_cid_to_bytes(a).len() as int));
            assert(eb =~= spec_cid_to_bytes(b).subrange(1, spec_cid_to_bytes(b).len() as int));
            assert(ea == eb);
            assert(ea.subrange(0, spec_varint(a.codec as nat).len() as int) =~= spec_varint(
                a.codec as nat,
            ));
            assert(eb.subrange(0, spec_varint(b.codec as nat).len() as int) =~= spec_varint(
                b.codec as nat,
            ));
            lemma_varint_roundtrip(ea, 0, a.codec as nat);
            lemma_varint_roundtrip(eb, 0, b.codec as nat);
            assert(a.codec == b.codec);
            assert(a.multihash =~= b.multihash) by {
                let la = spec_varint(a.codec as nat).len();
                assert(a.multihash =~= ea.subrange(la as int, ea.len() as int));
                assert(b.multihash =~= eb.subrange(la as int, eb.len() as int));
            }
        }
    }
}

/// Conversion keeps both the binary encoding and equality: a converted
/// identifier encodes to the same bytes as the parts it came from, and two
/// sets of parts convert to equal identifiers — or to identifiers with
/// equal encodings — exactly when the parts are equal.
pub proof fn lemma_conversion_preserves_encoding_and_equality(a: CidParts, b: CidParts)
    requires
        spec_cid_convert(a) is Some,
        spec_cid_convert(b) is Some,
    ensures
        spec_cid_to_bytes(spec_cid_convert(a).unwrap()) == spec_cid_to_bytes(a),
        (spec_cid_convert(a) == spec_cid_convert(b)) <==> a == b,
        (spec_cid_to_bytes(spec_cid_convert(a).unwrap()) == spec_cid_to_bytes(
            spec_cid_convert(b).unwrap(),
        )) <==> a == b,
{
    lemma_cid_bytes_injective(a, b);
}

/// A well-formed identifier's multihash is non-empty, and for version 0 its
/// first byte is the sha2-256 code.
proof fn lemma_wf_multihash_nonempty(c: CidParts)
    requires
        spec_cid_wf(c),
    ensures
        c.multihash.len() > 0,
        c.version == 0 ==> c.multihash[0] == 0x12,
{
    if c.version == 0 {
        let (code, p1) = spec_varint_at(c.multihash, 0).unwrap();
        if c.multihash[0] >= 0x80 {
            let (hi, _) = spec_varint_at(c.multihash, 1).unwrap();
            assert(code >= 0x80) by {
                assert(hi >= 1);
                assert(0x80 * hi >= 0x80) by (nonlinear_arith)
                    requires
                        hi >= 1,
                ;
            }
        }
    }
}

} // verus!
