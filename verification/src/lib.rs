//! Decoder for ID3v2.4 metadata tags: the fixed tag header, the optional
//! extended header with its bit-flag-indexed data blocks, and the sequence
//! of frames with their payload classification and text-encoding handling.
use vstd::prelude::*;

pub mod encoding;
pub mod extended_header;
pub mod frame;
pub mod frame_id;
pub mod frame_type;
pub mod header;
pub mod tag;
pub mod utils;

verus! {

/// What opening and decoding a file can fail with: the three filesystem
/// cases each carry the path, and a tag that fails to decode carries the
/// path and the decoding error. The filesystem itself stays outside this
/// library; callers that do the opening map their errors into this type.
#[derive(PartialEq, Clone, Debug)]
pub enum FileReadError {
    FileNotFound(String),
    MissingReadPermissions(String),
    FileSystemError(String),
    TagReadingError(String, crate::tag::TagReadError),
}

/// The pattern `p` occurs in `s` at position `i`.
pub open spec fn matches_at(s: Seq<u8>, p: Seq<u8>, i: int) -> bool {
    &&& 0 <= i
    &&& i + p.len() <= s.len()
    &&& forall|j: int| 0 <= j < p.len() ==> s[i + j] == p[j]
}

/// Position of the first occurrence of `p` in `s` at or after `from`.
pub open spec fn find_from(s: Seq<u8>, p: Seq<u8>, from: int) -> Option<int>
    decreases s.len() - from,
    when 0 <= from
{
    if from + p.len() > s.len() {
        None
    } else if matches_at(s, p, from) {
        Some(from)
    } else {
        find_from(s, p, from + 1)
    }
}

/// What `find_from` returns: the least position at or after `from` where the
/// pattern occurs, or nothing when it occurs nowhere from there on.
pub proof fn lemma_find_from_props(s: Seq<u8>, p: Seq<u8>, from: int)
    requires
        0 <= from,
    ensures
        match find_from(s, p, from) {
            Some(j) => from <= j && matches_at(s, p, j) && forall|k: int|
                from <= k < j ==> !matches_at(s, p, k),
            None => forall|k: int| from <= k ==> !matches_at(s, p, k),
        },
    decreases s.len() - from,
{
    if from + p.len() > s.len() {
    } else if matches_at(s, p, from) {
    } else {
        lemma_find_from_props(s, p, from + 1);
    }
}

/// Where the pattern first occurs at `j` and nowhere in between, the search
/// from `from` finds exactly `j`.
pub proof fn lemma_find_from_complete(s: Seq<u8>, p: Seq<u8>, from: int, j: int)
    requires
        0 <= from <= j,
        matches_at(s, p, j),
        forall|k: int| from <= k < j ==> !matches_at(s, p, k),
    ensures
        find_from(s, p, from) == Some(j),
    decreases j - from,
{
    if from == j {
    } else {
        lemma_find_from_complete(s, p, from + 1, j);
    }
}

/// Where the pattern occurs nowhere at or after `from`, the search fails.
pub proof fn lemma_find_from_none(s: Seq<u8>, p: Seq<u8>, from: int)
    requires
        0 <= from,
        forall|k: int| from <= k ==> !matches_at(s, p, k),
    ensures
        find_from(s, p, from) is None,
    decreases s.len() - from,
{
    if from + p.len() > s.len() {
    } else {
        lemma_find_from_none(s, p, from + 1);
    }
}

/// Position of the first occurrence of `pattern` in `bytes`; an empty
/// pattern is never found.
pub open spec fn spec_find_substring(s: Seq<u8>, p: Seq<u8>) -> Option<int> {
    if p.len() == 0 {
        None
    } else {
        find_from(s, p, 0)
    }
}

fn bytes_match_at(bytes: &[u8], pattern: &[u8], i: usize) -> (r: bool)
    requires
        i <= bytes@.len(),
        pattern@.len() <= bytes@.len() - i,
    ensures
        r == matches_at(bytes@, pattern@, i as int),
{
    let n = bytes.len();
    let mut j: usize = 0;
    while j < pattern.len()
        invariant
            n == bytes@.len(),
            i + pattern@.len() <= bytes@.len(),
            j <= pattern@.len(),
            forall|k: int| 0 <= k < j ==> bytes@[i + k] == pattern@[k],
        decreases pattern@.len() - j,
    {
        if bytes[i + j] != pattern[j] {
            return false;
        }
        j = j + 1;
    }
    true
}

/// The first occurrence of `pattern` in `bytes` at or after `from`.
pub fn find_substring_from(bytes: &[u8], pattern: &[u8], from: usize) -> (r: Option<usize>)
    requires
        from <= bytes@.len(),
    ensures
        match r {
            Some(k) => find_from(bytes@, pattern@, from as int) == Some(k as int),
            None => find_from(bytes@, pattern@, from as int) is None,
        },
{
    let mut i: usize = from;
    while i <= bytes.len() && pattern.len() <= bytes.len() - i
        invariant
            from <= i <= bytes@.len() + 1,
            pattern@.len() > 0 || i == from,
            forall|k: int| from <= k < i ==> !matches_at(bytes@, pattern@, k),
        decreases bytes@.len() + 1 - i,
    {
        if bytes_match_at(bytes, pattern, i) {
            proof {
                lemma_find_from_complete(bytes@, pattern@, from as int, i as int);
            }
            return Some(i);
        }
        i = i + 1;
    }
    proof {
        assert(forall|k: int| from <= k ==> !matches_at(bytes@, pattern@, k));
        lemma_find_from_none(bytes@, pattern@, from as int);
    }
    None
}

/// Finds the first occurrence of `pattern` in `bytes`, left to right; an
/// empty pattern yields nothing.
pub fn find_substring(bytes: &[u8], pattern: &[u8]) -> (r: Option<usize>)
    ensures
        match r {
            Some(k) => spec_find_substring(bytes@, pattern@) == Some(k as int),
            None => spec_find_substring(bytes@, pattern@) is None,
        },
{
    if pattern.len() == 0 {
        return None;
    }
    find_substring_from(bytes, pattern, 0)
}

} // verus!
