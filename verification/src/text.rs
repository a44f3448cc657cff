//! Character-level string helpers for the decoder: equality and the
//! splitting of a repository path into collection and record key.

use vstd::prelude::*;
use vstd::string::StrSliceExecFns;
use vstd::utf8::encode_utf8_decode_utf8;

verus! {

/// String equality at the character level.
#[verifier::loop_isolation(false)]
pub fn str_eq(a: &str, b: &str) -> (r: bool)
    ensures
        r == (a@ == b@),
{
    let ab = a.as_bytes();
    let bb = b.as_bytes();
    proof {
        encode_utf8_decode_utf8(a@);
        encode_utf8_decode_utf8(b@);
    }
    if ab.len() != bb.len() {
        return false;
    }
    let n = ab.len();
    let mut i: usize = 0;
    while i < n
        invariant
            i <= n,
            forall|j: int| 0 <= j < i ==> ab@[j] == bb@[j],
        decreases n - i,
    {
        if ab[i] != bb[i] {
            return false;
        }
        i = i + 1;
    }
    proof {
        assert(ab@ =~= bb@);
    }
    true
}

/// Index of the first `/` in `p` at or after `i`.
pub open spec fn spec_slash_pos(p: Seq<char>, i: int) -> Option<int>
    decreases p.len() - i,
{
    if 0 <= i < p.len() {
        if p[i] == '/' {
            Some(i)
        } else {
            spec_slash_pos(p, i + 1)
        }
    } else {
        None
    }
}

/// Splitting a repository path on the first `/`: everything before it is
/// the collection, everything after it the record key. A path without a
/// `/` is all collection, with an empty record key.
pub open spec fn spec_split_path(p: Seq<char>) -> (Seq<char>, Seq<char>) {
    match spec_slash_pos(p, 0) {
        None => (p, Seq::empty()),
        Some(i) => (p.subrange(0, i), p.subrange(i + 1, p.len() as int)),
    }
}

/// Splits a repository path on its first `/`.
#[verifier::loop_isolation(false)]
pub fn split_path(p: &str) -> (r: (String, String))
    ensures
        (r.0@, r.1@) == spec_split_path(p@),
{
    let len = p.unicode_len();
    let mut i: usize = 0;
    while i < len
        invariant
            i <= len,
            spec_slash_pos(p@, 0) == spec_slash_pos(p@, i as int),
        decreases len - i,
    {
        if p.get_char(i) == '/' {
            let collection = p.substring_char(0, i).to_owned();
            let rkey = p.substring_char(i + 1, len).to_owned();
            return (collection, rkey);
        }
        i = i + 1;
    }
    (p.to_owned(), String::new())
}

/// A path without a `/` becomes all collection, with an empty record key.
pub proof fn lemma_split_path_no_slash(p: Seq<char>)
    requires
        forall|i: int| 0 <= i < p.len() ==> p[i] != '/',
    ensures
        spec_split_path(p) == (p, Seq::<char>::empty()),
{
    lemma_no_slash_from(p, 0);
}

proof fn lemma_no_slash_from(p: Seq<char>, i: int)
    requires
        forall|j: int| 0 <= j < p.len() ==> p[j] != '/',
        0 <= i,
    ensures
        spec_slash_pos(p, i) is None,
    decreases p.len() - i,
{
    if i < p.len() {
        lemma_no_slash_from(p, i + 1);
    }
}

/// A path whose only `/` is its last character has an empty record key.
pub proof fn lemma_split_path_trailing_slash(p: Seq<char>)
    requires
        p.len() > 0,
        spec_slash_pos(p, 0) == Some(p.len() - 1),
    ensures
        spec_split_path(p).1 == Seq::<char>::empty(),
{
    assert(p.subrange(p.len() as int, p.len() as int) =~= Seq::<char>::empty());
}

} // verus!
