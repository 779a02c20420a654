//! Small specification helpers for reasoning about text: a substring
//! predicate and lemmas about substrings of concatenations. The status-line
//! and log-message laws are stated with these.

use vstd::prelude::*;

verus! {

/// `needle` occurs contiguously somewhere inside `hay`.
pub open spec fn contains_seq(hay: Seq<char>, needle: Seq<char>) -> bool {
    exists|i: int|
        0 <= i && i + needle.len() <= hay.len() && #[trigger] hay.subrange(i, i + needle.len())
            == needle
}

/// A concatenation contains its right-hand part.
pub proof fn lemma_concat_contains_right(left: Seq<char>, right: Seq<char>)
    ensures
        contains_seq(left + right, right),
{
    let hay = left + right;
    let i = left.len() as int;
    assert(hay.subrange(i, i + right.len()) =~= right);
}

/// Prepending more text preserves every substring.
pub proof fn lemma_contains_after_prepend(prefix: Seq<char>, hay: Seq<char>, needle: Seq<char>)
    requires
        contains_seq(hay, needle),
    ensures
        contains_seq(prefix + hay, needle),
{
    let i = choose|i: int|
        0 <= i && i + needle.len() <= hay.len() && #[trigger] hay.subrange(i, i + needle.len())
            == needle;
    let j = prefix.len() + i;
    assert((prefix + hay).subrange(j, j + needle.len()) =~= hay.subrange(i, i + needle.len()));
}

} // verus!
