//! Structural parsing of definite-length CBOR items.
//!
//! The firehose frames a payload as one self-delimited CBOR header item
//! followed by raw body bytes, so the only CBOR facility the envelope layer
//! needs is "where does the item that starts here end?". This module gives
//! that question a specification (`spec_item_end`) and a verified
//! implementation (`skip_item`), together with the head decoding shared by
//! the header field readers. Indefinite-length items and the reserved
//! additional-information values 28..=30 are rejected, as they are in
//! DAG-CBOR.

use vstd::prelude::*;

verus! {

/// Head of a CBOR item: the argument value and the position just past the
/// head bytes. `None` for truncated heads and for additional information
/// 28..=31 (reserved or indefinite).
pub open spec fn spec_head(b: Seq<u8>, pos: int) -> Option<(nat, int)> {
    if 0 <= pos < b.len() {
        let ai = b[pos] % 32;
        if ai < 24 {
            Some((ai as nat, pos + 1))
        } else if ai == 24 {
            if pos + 2 <= b.len() {
                Some((b[pos + 1] as nat, pos + 2))
            } else {
                None
            }
        } else if ai == 25 {
            if pos + 3 <= b.len() {
                Some(((b[pos + 1] as nat) * 0x100 + b[pos + 2] as nat, pos + 3))
            } else {
                None
            }
        } else if ai == 26 {
            if pos + 5 <= b.len() {
                Some(
                    ((b[pos + 1] as nat) * 0x1000000 + (b[pos + 2] as nat) * 0x10000 + (b[pos
                        + 3] as nat) * 0x100 + b[pos + 4] as nat, pos + 5),
                )
            } else {
                None
            }
        } else if ai == 27 {
            if pos + 9 <= b.len() {
                Some(
                    ((b[pos + 1] as nat) * 0x100000000000000 + (b[pos + 2] as nat)
                        * 0x1000000000000 + (b[pos + 3] as nat) * 0x10000000000 + (b[pos
                        + 4] as nat) * 0x100000000 + (b[pos + 5] as nat) * 0x1000000 + (b[pos
                        + 6] as nat) * 0x10000 + (b[pos + 7] as nat) * 0x100 + b[pos + 8] as nat,
                    pos + 9),
                )
            } else {
                None
            }
        } else {
            None
        }
    } else {
        None
    }
}

/// Position just past the definite-length CBOR item that starts at `pos`,
/// or `None` if the bytes there do not form such an item.
pub open spec fn spec_item_end(b: Seq<u8>, pos: int) -> Option<int>
    decreases b.len() - pos, 0nat,
{
    match spec_head(b, pos) {
        None => None,
        Some((arg, ae)) => {
            let major = b[pos] / 32;
            if major == 0 || major == 1 || major == 7 {
                Some(ae)
            } else if major == 2 || major == 3 {
                if ae + arg <= b.len() {
                    Some(ae + arg)
                } else {
                    None
                }
            } else if major == 4 {
                spec_items_end(b, ae, arg)
            } else if major == 5 {
                spec_items_end(b, ae, 2 * arg)
            } else {
                // major == 6, a tag wrapping one item
                spec_item_end(b, ae)
            }
        },
    }
}

/// Position just past `n` consecutive CBOR items starting at `pos`.
pub open spec fn spec_items_end(b: Seq<u8>, pos: int, n: nat) -> Option<int>
    decreases b.len() - pos, n,
{
    if n == 0 {
        Some(pos)
    } else {
        match spec_item_end(b, pos) {
            None => None,
            Some(e) => if pos < e <= b.len() {
                spec_items_end(b, e, (n - 1) as nat)
            } else {
                None
            },
        }
    }
}

/// An item always occupies at least one byte and stays inside the buffer.
pub proof fn lemma_item_end_bounds(b: Seq<u8>, pos: int)
    ensures
        spec_item_end(b, pos) matches Some(e) ==> pos < e <= b.len(),
    decreases b.len() - pos, 0nat,
{
    if spec_item_end(b, pos) is Some {
        let major = b[pos] / 32;
        match spec_head(b, pos) {
            None => {},
            Some((arg, ae)) => {
                if major == 4 {
                    lemma_items_end_bounds(b, ae, arg);
                } else if major == 5 {
                    lemma_items_end_bounds(b, ae, 2 * arg);
                } else if major == 6 {
                    lemma_item_end_bounds(b, ae);
                }
            },
        }
    }
}

/// `n` items occupy at least `n` bytes and stay inside the buffer.
pub proof fn lemma_items_end_bounds(b: Seq<u8>, pos: int, n: nat)
    ensures
        spec_items_end(b, pos, n) matches Some(e) ==> pos + n <= e && (n > 0 ==> e <= b.len()),
    decreases b.len() - pos, n,
{
    if n > 0 && spec_items_end(b, pos, n) is Some {
        match spec_item_end(b, pos) {
            None => {},
            Some(e) => {
                if pos < e <= b.len() {
                    lemma_item_end_bounds(b, pos);
                    lemma_items_end_bounds(b, e, (n - 1) as nat);
                }
            },
        }
    }
}

/// Reads the head of the item at `pos`: the argument value and the position
/// just past the head.
pub fn read_head(b: &[u8], pos: usize) -> (r: Option<(u64, usize)>)
    ensures
        match r {
            Some((v, e)) => spec_head(b@, pos as int) == Some((v as nat, e as int)),
            None => spec_head(b@, pos as int) is None,
        },
{
    if pos >= b.len() {
        return None;
    }
    let ai = b[pos] % 32;
    if ai < 24 {
        Some((ai as u64, pos + 1))
    } else if ai == 24 {
        if b.len() - pos >= 2 {
            Some((b[pos + 1] as u64, pos + 2))
        } else {
            None
        }
    } else if ai == 25 {
        if b.len() - pos >= 3 {
            Some(((b[pos + 1] as u64) * 0x100 + b[pos + 2] as u64, pos + 3))
        } else {
            None
        }
    } else if ai == 26 {
        if b.len() - pos >= 5 {
            let v = (b[pos + 1] as u64) * 0x1000000 + (b[pos + 2] as u64) * 0x10000 + (b[pos
                + 3] as u64) * 0x100 + b[pos + 4] as u64;
            Some((v, pos + 5))
        } else {
            None
        }
    } else if ai == 27 {
        if b.len() - pos >= 9 {
            let v = (b[pos + 1] as u64) * 0x100000000000000 + (b[pos + 2] as u64)
                * 0x1000000000000 + (b[pos + 3] as u64) * 0x10000000000 + (b[pos + 4] as u64)
                * 0x100000000 + (b[pos + 5] as u64) * 0x1000000 + (b[pos + 6] as u64) * 0x10000 + (
            b[pos + 7] as u64) * 0x100 + b[pos + 8] as u64;
            Some((v, pos + 9))
        } else {
            None
        }
    } else {
        None
    }
}

/// Skips the definite-length CBOR item that starts at `pos`, returning the
/// position just past it.
#[verifier::loop_isolation(false)]
pub fn skip_item(b: &[u8], pos: usize) -> (r: Option<usize>)
    ensures
        match r {
            Some(e) => spec_item_end(b@, pos as int) == Some(e as int) && pos < e <= b@.len(),
            None => spec_item_end(b@, pos as int) is None,
        },
    decreases b@.len() - pos, 0nat,
{
    proof {
        lemma_item_end_bounds(b@, pos as int);
    }
    let ib = if pos < b.len() {
        b[pos]
    } else {
        0
    };
    let major = ib / 32;
    match read_head(b, pos) {
        None => None,
        Some((arg, ae)) => {
            if major <= 1 || major == 7 {
                Some(ae)
            } else if major <= 3 {
                if arg <= (b.len() - ae) as u64 {
                    Some(ae + arg as usize)
                } else {
                    None
                }
            } else if major <= 5 {
                let count: usize = if major == 4 {
                    if arg > (b.len() - ae) as u64 {
                        proof {
                            lemma_items_end_bounds(b@, ae as int, arg as nat);
                        }
                        return None;
                    }
                    arg as usize
                } else {
                    if arg > ((b.len() - ae) / 2) as u64 {
                        proof {
                            lemma_items_end_bounds(b@, ae as int, 2 * arg as nat);
                        }
                        return None;
                    }
                    (arg as usize) * 2
                };
                skip_items(b, ae, count)
            } else {
                // major == 6
                skip_item(b, ae)
            }
        },
    }
}

/// Skips `count` consecutive CBOR items starting at `pos`, returning the
/// position just past the last one.
#[verifier::loop_isolation(false)]
pub fn skip_items(b: &[u8], pos: usize, count: usize) -> (r: Option<usize>)
    requires
        pos <= b@.len(),
    ensures
        match r {
            Some(e) => spec_items_end(b@, pos as int, count as nat) == Some(e as int) && pos <= e
                <= b@.len(),
            None => spec_items_end(b@, pos as int, count as nat) is None,
        },
    decreases b@.len() - pos, 1nat,
{
    let mut cur: usize = pos;
    let mut i: usize = 0;
    while i < count
        invariant
            i <= count,
            pos <= cur <= b@.len(),
            spec_items_end(b@, pos as int, count as nat) == spec_items_end(
                b@,
                cur as int,
                (count - i) as nat,
            ),
        decreases count - i,
    {
        match skip_item(b, cur) {
            None => {
                return None;
            },
            Some(e) => {
                cur = e;
                i = i + 1;
            },
        }
    }
    Some(cur)
}

} // verus!
