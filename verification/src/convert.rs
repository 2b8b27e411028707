//! Conversion of a redirected DOS-style path into the Unix-style path of the
//! shared directory.
//!
//! The conversion is literal: every backslash becomes a forward slash, and
//! one leading separator, which stands for the root of the drive, is taken
//! off, so that the result is relative to the shared directory. Nothing else
//! is normalized, and nothing is rejected.

use vstd::prelude::*;
use crate::encoding::{lemma_ascii_byte_occurs, lemma_first_byte};
use crate::scan::{find_byte, split_around};

verus! {

/// `s` with every backslash replaced by a forward slash.
pub open spec fn backslashes_replaced(s: Seq<char>) -> Seq<char> {
    Seq::new(s.len(), |i: int| if s[i] == '\\' { '/' } else { s[i] })
}

/// `s` without its first `n` characters; empty where `s` has no more than `n`.
pub open spec fn cropped(s: Seq<char>, n: nat) -> Seq<char> {
    if n < s.len() {
        s.subrange(n as int, s.len() as int)
    } else {
        Seq::empty()
    }
}

/// True when `s` begins with a forward slash.
pub open spec fn starts_with_slash(s: Seq<char>) -> bool {
    s.len() > 0 && s[0] == '/'
}

/// The Unix-style path that the DOS-style path `s` converts to.
pub open spec fn unix_path(s: Seq<char>) -> Seq<char> {
    let replaced = backslashes_replaced(s);
    if starts_with_slash(replaced) {
        replaced.drop_first()
    } else {
        replaced
    }
}

/// Copies `s` with every backslash replaced by a forward slash.
pub fn replace_backslashes(s: &str) -> (out: String)
    ensures
        out@ == backslashes_replaced(s@),
{
    let mut out = String::new();
    let mut rest: &str = s;
    loop
        invariant
            out@ + backslashes_replaced(rest@) == backslashes_replaced(s@),
        decreases rest@.len(),
    {
        match find_byte(rest.as_bytes(), 0x5C) {
            Some(at) => {
                let (head, tail) = split_around(rest, at);
                proof {
                    reveal_strlit("/");
                    lemma_ascii_byte_occurs(head@, 0x5C);
                    assert(backslashes_replaced(rest@) =~= head@ + "/"@ + backslashes_replaced(
                        tail@,
                    ));
                }
                out.append(head);
                out.append("/");
                rest = tail;
            },
            None => {
                proof {
                    lemma_ascii_byte_occurs(rest@, 0x5C);
                }
                out.append(rest);
                return out;
            },
        }
    }
}

/// Tells whether `s` begins with a forward slash.
pub fn begins_with_slash(s: &str) -> (b: bool)
    ensures
        b == starts_with_slash(s@),
{
    let bytes = s.as_bytes();
    proof {
        lemma_first_byte(s@, 0x2F);
    }
    bytes.len() > 0 && bytes[0] == 0x2F
}

/// Crops the first `n` characters off of `s`, in place. Where `s` has no
/// more than `n` characters, it is left empty.
pub fn crop_first_n_letters(s: &mut String, n: usize)
    ensures
        final(s)@ == cropped(old(s)@, n as nat),
{
    let len = s.as_str().unicode_len();
    if n < len {
        let kept = String::from_str(s.as_str().substring_char(n, len));
        *s = kept;
    } else {
        *s = String::new();
    }
}

/// Converts a path as RDP device redirection sends it into the Unix-style
/// path under the shared directory: every backslash becomes a forward slash,
/// and then one leading slash, if there is one, is removed.
///
/// The path is taken to be of the narrow form that device redirection sends:
/// backslash separators, no drive letter, no UNC prefix. Any other text is
/// converted in the same literal way and never rejected, so a drive letter
/// stays where it is and a UNC prefix keeps one of its two slashes.
pub fn to_unix_path(rdp_path: &str) -> (cleaned: String)
    ensures
        cleaned@ == unix_path(rdp_path@),
{
    let mut cleaned = replace_backslashes(rdp_path);
    if begins_with_slash(cleaned.as_str()) {
        crop_first_n_letters(&mut cleaned, 1);
    }
    cleaned
}

/// True when `c` separates segments in either form of a path.
pub open spec fn is_separator(c: char) -> bool {
    c == '\\' || c == '/'
}

/// Conversion is a function of the text alone: whatever two conversions of
/// the same text return is the same text.
pub proof fn lemma_conversion_deterministic(a: &str, b: &str, first: String, second: String)
    requires
        a@ == b@,
        call_ensures(to_unix_path, (a,), first),
        call_ensures(to_unix_path, (b,), second),
    ensures
        first@ == second@,
{
}

/// A path without a backslash and without a leading slash converts to
/// itself.
pub proof fn lemma_conversion_keeps_unix_path(s: Seq<char>)
    requires
        !s.contains('\\'),
        !starts_with_slash(s),
    ensures
        unix_path(s) == s,
{
}

/// A converted path holds no backslash. It is one character shorter than the
/// path it was made from where that began with a separator, and as long
/// otherwise. It still begins with a slash only where the path it was made
/// from began with two separators.
pub proof fn lemma_conversion_result(s: Seq<char>)
    ensures
        !unix_path(s).contains('\\'),
        unix_path(s).len() == if s.len() > 0 && is_separator(s[0]) {
            s.len() - 1
        } else {
            s.len() as int
        },
        starts_with_slash(unix_path(s)) <==> s.len() >= 2 && is_separator(s[0]) && is_separator(
            s[1],
        ),
{
}

/// Converting a converted path once more changes nothing, except where the
/// first path began with two separators: the first conversion took one off,
/// and the second takes off the other.
pub proof fn lemma_conversion_twice(s: Seq<char>)
    ensures
        unix_path(unix_path(s)) == unix_path(s) <==> !starts_with_slash(unix_path(s)),
        unix_path(unix_path(s)) == unix_path(s) <==> !(s.len() >= 2 && is_separator(s[0])
            && is_separator(s[1])),
{
    let once = unix_path(s);
    lemma_conversion_result(s);
    assert(backslashes_replaced(once) =~= once);
}

} // verus!
