//! Searching the bytes of a text: whether a token occurs in it, how it ends,
//! and which file a path names.

use vstd::prelude::*;

verus! {

/// The byte that separates the components of a path.
pub const SEPARATOR: u8 = 0x2f;

/// Whether `needle` stands in `hay` at index `at`.
pub open spec fn occurs_at(hay: Seq<u8>, needle: Seq<u8>, at: int) -> bool {
    0 <= at && at + needle.len() <= hay.len() && hay.subrange(at, at + needle.len()) == needle
}

/// Whether `needle` stands anywhere in `hay`.
pub open spec fn contains(hay: Seq<u8>, needle: Seq<u8>) -> bool {
    exists|at: int| occurs_at(hay, needle, at)
}

/// Whether `hay` ends in `suffix`.
pub open spec fn ends_with(hay: Seq<u8>, suffix: Seq<u8>) -> bool {
    occurs_at(hay, suffix, hay.len() - suffix.len())
}

/// The last component of a path: what follows its last separator, or the
/// whole path where it has none.
pub open spec fn base_name(path: Seq<u8>) -> Seq<u8>
    decreases path.len(),
{
    if path.len() == 0 || path.last() == SEPARATOR {
        Seq::empty()
    } else {
        base_name(path.drop_last()).push(path.last())
    }
}

/// The base name is the part of the path from `start` on, where `start`
/// follows a separator or is the beginning and no separator comes after it.
pub proof fn lemma_base_name_from(path: Seq<u8>, start: int)
    requires
        0 <= start <= path.len(),
        start == 0 || path[start - 1] == SEPARATOR,
        forall|j: int| start <= j < path.len() ==> path[j] != SEPARATOR,
    ensures
        base_name(path) == path.subrange(start, path.len() as int),
    decreases path.len() - start,
{
    if start < path.len() {
        lemma_base_name_from(path.drop_last(), start);
    }
}

/// Whether `needle` stands in `text` at index `at`.
pub fn matches_at(text: &[u8], at: usize, needle: &[u8]) -> (r: bool)
    requires
        at + needle.len() <= text.len(),
    ensures
        r == occurs_at(text@, needle@, at as int),
{
    let mut k: usize = 0;
    while k < needle.len() && text[at + k] == needle[k]
        invariant
            k <= needle.len(),
            at + needle.len() <= text.len(),
            forall|j: int| 0 <= j < k ==> text@[at + j] == needle@[j],
        decreases needle.len() - k,
    {
        k = k + 1;
    }
    let ghost window = text@.subrange(at as int, at + needle.len());
    if k == needle.len() {
        assert(window =~= needle@);
        true
    } else {
        false
    }
}

/// Whether `needle` stands anywhere among the first `end` bytes of `text`.
pub fn prefix_contains(text: &[u8], end: usize, needle: &[u8]) -> (r: bool)
    requires
        end <= text.len(),
    ensures
        r == contains(text@.subrange(0, end as int), needle@),
{
    let ghost prefix = text@.subrange(0, end as int);
    if needle.len() > end {
        return false;
    }
    let last: usize = end - needle.len();
    let mut at: usize = 0;
    while at <= last
        invariant
            at <= last + 1,
            last + needle.len() == end,
            end <= text.len(),
            prefix == text@.subrange(0, end as int),
            forall|a: int| 0 <= a < at ==> !occurs_at(prefix, needle@, a),
        decreases last + 1 - at,
    {
        let found = matches_at(text, at, needle);
        assert(prefix.subrange(at as int, at + needle.len()) =~= text@.subrange(
            at as int,
            at + needle.len(),
        ));
        if found {
            assert(occurs_at(prefix, needle@, at as int));
            return true;
        }
        if at == last {
            return false;
        }
        at = at + 1;
    }
    false
}

/// Whether `text` ends in `suffix`.
pub fn ends_in(text: &[u8], suffix: &[u8]) -> (r: bool)
    ensures
        r == ends_with(text@, suffix@),
{
    if suffix.len() > text.len() {
        false
    } else {
        matches_at(text, text.len() - suffix.len(), suffix)
    }
}

/// Whether the last component of `path` is `name`.
pub fn base_name_is(path: &[u8], name: &[u8]) -> (r: bool)
    ensures
        r == (base_name(path@) == name@),
{
    let mut start: usize = path.len();
    while start > 0 && path[start - 1] != SEPARATOR
        invariant
            start <= path.len(),
            forall|j: int| start <= j < path.len() ==> path@[j] != SEPARATOR,
        decreases start,
    {
        start = start - 1;
    }
    proof {
        lemma_base_name_from(path@, start as int);
    }
    if path.len() - start != name.len() {
        false
    } else {
        matches_at(path, start, name)
    }
}

} // verus!
