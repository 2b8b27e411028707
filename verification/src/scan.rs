//! Scanning a text by its bytes.
//!
//! Separators and the NUL terminator are ASCII, so they can be looked for in
//! the UTF-8 bytes of a path without decoding it, and the path can be cut at
//! the byte that was found.

use vstd::prelude::*;
use vstd::utf8::*;
use crate::encoding::{lemma_ascii_byte_boundaries, lemma_single_ascii_byte, lemma_split_text};

verus! {

/// The index of the first byte equal to `b`, if there is one.
pub fn find_byte(bytes: &[u8], b: u8) -> (found: Option<usize>)
    ensures
        match found {
            Some(i) => {
                &&& i < bytes@.len()
                &&& bytes@[i as int] == b
                &&& forall|j: int| 0 <= j < i ==> bytes@[j] != b
            },
            None => !bytes@.contains(b),
        },
{
    let mut i: usize = 0;
    while i < bytes.len()
        invariant
            i <= bytes@.len(),
            forall|j: int| 0 <= j < i ==> bytes@[j] != b,
        decreases bytes@.len() - i,
    {
        if bytes[i] == b {
            return Some(i);
        }
        i += 1;
    }
    None
}

/// The index of the last byte equal to `b`, if there is one.
pub fn rfind_byte(bytes: &[u8], b: u8) -> (found: Option<usize>)
    ensures
        match found {
            Some(i) => {
                &&& i < bytes@.len()
                &&& bytes@[i as int] == b
                &&& forall|j: int| i < j < bytes@.len() ==> bytes@[j] != b
            },
            None => !bytes@.contains(b),
        },
{
    let mut i: usize = bytes.len();
    while i > 0
        invariant
            i <= bytes@.len(),
            forall|j: int| i <= j < bytes@.len() ==> bytes@[j] != b,
        decreases i,
    {
        i -= 1;
        if bytes[i] == b {
            return Some(i);
        }
    }
    None
}

/// Cuts `s` around the ASCII character whose byte stands at index `at`, and
/// returns the text before that character and the text behind it.
pub(crate) fn split_around<'a>(s: &'a str, at: usize) -> (parts: (&'a str, &'a str))
    requires
        at < encode_utf8(s@).len(),
        encode_utf8(s@)[at as int] < 0x80,
    ensures
        s@ == parts.0@.push(encode_utf8(s@)[at as int] as char) + parts.1@,
        encode_utf8(parts.0@) == encode_utf8(s@).subrange(0, at as int),
        encode_utf8(parts.1@) == encode_utf8(s@).subrange(
            at + 1,
            encode_utf8(s@).len() as int,
        ),
{
    let ghost bytes = encode_utf8(s@);
    proof {
        lemma_ascii_byte_boundaries(s@, at as int);
    }
    let (head, tail) = s.split_at(at);
    let (sep, rest) = tail.split_at(1);
    proof {
        lemma_split_text(s@, head@, tail@, at as int);
        lemma_split_text(tail@, sep@, rest@, 1);
        lemma_single_ascii_byte(sep@, bytes[at as int]);
    }
    (head, rest)
}

} // verus!
