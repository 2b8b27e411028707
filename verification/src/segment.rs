//! The last segment of a Unix-style path.
//!
//! A path is split at every forward slash, and the last piece is its last
//! segment. This is a plain split and no basename: a path that ends in a
//! slash has the empty text behind that slash as its last segment.

use vstd::prelude::*;

verus! {

/// The index at which the last segment of `s` begins: directly behind the
/// last forward slash, or 0 where `s` has none.
pub open spec fn last_segment_start(s: Seq<char>) -> nat
    decreases s.len(),
{
    if s.len() == 0 {
        0
    } else if s.last() == '/' {
        s.len()
    } else {
        last_segment_start(s.drop_last())
    }
}

/// The text behind the last forward slash of `s`; all of `s` where it has
/// none.
pub open spec fn last_segment(s: Seq<char>) -> Seq<char> {
    s.subrange(last_segment_start(s) as int, s.len() as int)
}

/// The last segment begins at the start of the path or directly behind a
/// slash, and no slash follows.
pub proof fn lemma_last_segment_start(s: Seq<char>)
    ensures
        last_segment_start(s) <= s.len(),
        last_segment_start(s) == 0 || s[last_segment_start(s) - 1] == '/',
        forall|j: int| last_segment_start(s) <= j < s.len() ==> s[j] != '/',
    decreases s.len(),
{
    if s.len() > 0 && s.last() != '/' {
        let front = s.drop_last();
        lemma_last_segment_start(front);
        assert forall|j: int| last_segment_start(s) <= j < s.len() implies s[j] != '/' by {
            if j < front.len() {
                assert(front[j] == s[j]);
            }
        }
    }
}

/// Only one index begins at the start of the path or behind a slash and has
/// no slash from it on: the start of the last segment.
pub proof fn lemma_last_segment_start_unique(s: Seq<char>, k: int)
    requires
        0 <= k <= s.len(),
        k == 0 || s[k - 1] == '/',
        forall|j: int| k <= j < s.len() ==> s[j] != '/',
    ensures
        last_segment_start(s) == k,
    decreases s.len(),
{
    if s.len() > 0 && s.last() != '/' {
        lemma_last_segment_start_unique(s.drop_last(), k);
    }
}

/// Where a path is a prefix that is empty or ends in a slash, followed by a
/// text without any slash, that text is its last segment.
pub proof fn lemma_last_segment_of_concat(prefix: Seq<char>, tail: Seq<char>)
    requires
        prefix.len() == 0 || prefix.last() == '/',
        !tail.contains('/'),
    ensures
        last_segment(prefix + tail) == tail,
{
    lemma_last_segment_start_unique(prefix + tail, prefix.len() as int);
}

/// A path without a slash is its own last segment.
pub proof fn lemma_last_segment_without_slash(s: Seq<char>)
    requires
        !s.contains('/'),
    ensures
        last_segment(s) == s,
{
    lemma_last_segment_of_concat(Seq::empty(), s);
}

/// The last segment holds no slash, and the path is what stands before it
/// followed by it.
pub proof fn lemma_last_segment_is_suffix(s: Seq<char>)
    ensures
        !last_segment(s).contains('/'),
        s == s.subrange(0, last_segment_start(s) as int) + last_segment(s),
{
    lemma_last_segment_start(s);
}

/// The last segment is empty exactly for the empty path and for a path that
/// ends in a slash.
pub proof fn lemma_last_segment_empty(s: Seq<char>)
    ensures
        last_segment(s).len() == 0 <==> s.len() == 0 || s.last() == '/',
{
    lemma_last_segment_start(s);
}

} // verus!
