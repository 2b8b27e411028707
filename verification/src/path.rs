//! The two path types: a path as RDP device redirection sends it, and the
//! path under the shared directory that it stands for.

use vstd::prelude::*;
use vstd::utf8::{encode_utf8, is_ascii_chars, is_ascii_chars_encode_utf8};
use vstd::std_specs::convert::FromSpecImpl;
use crate::convert::{to_unix_path, unix_path};
use crate::encoding::{lemma_ascii_byte_occurs, lemma_encode_len};
use crate::scan::{find_byte, rfind_byte, split_around};
use crate::segment::{last_segment, lemma_last_segment_of_concat, lemma_last_segment_without_slash};

verus! {

/// The length of the text `s` as the length fields of the redirection
/// protocol count it: the number of bytes of its UTF-8 form, as a 32-bit
/// number.
pub open spec fn protocol_len(s: Seq<char>) -> nat {
    encode_utf8(s).len() % 0x1_0000_0000
}

/// The bytes of `s` followed by a single NUL byte.
pub open spec fn nul_terminated(s: Seq<char>) -> Seq<u8> {
    encode_utf8(s).push(0u8)
}

/// True when `position` is the index of the first NUL byte of `bytes`.
pub open spec fn is_first_nul(bytes: Seq<u8>, position: int) -> bool {
    &&& 0 <= position < bytes.len()
    &&& bytes[position] == 0
    &&& forall|j: int| 0 <= j < position ==> bytes[j] != 0
}

/// A path holds a NUL character, so that no NUL-terminated form of it exists.
#[derive(Debug, Clone, Copy, PartialEq, Eq, Structural)]
pub struct EmbeddedNulError {
    /// The index of the first NUL byte among the bytes of the path.
    pub position: usize,
}

/// A path in the form of a traditional DOS path, as RDP device redirection
/// sends it. It is assumed to be either absolute from the root of the current
/// drive (`\Program Files\Custom Utilities\StringFinder.exe`) or relative to
/// the current directory (`2018\January.xlsx`). The text is held as it came:
/// nothing is checked when a path is made.
#[derive(Debug)]
pub struct WindowsPath {
    pub path: String,
}

impl View for WindowsPath {
    type V = Seq<char>;

    open spec fn view(&self) -> Seq<char> {
        self.path@
    }
}

impl Clone for WindowsPath {
    fn clone(&self) -> (copy: Self)
        ensures
            copy == *self,
    {
        WindowsPath { path: self.path.clone() }
    }
}

impl WindowsPath {
    /// The length of the path as the length fields of the redirection
    /// protocol count it: in bytes of its UTF-8 form, not in characters.
    pub fn len(&self) -> (n: u32)
        ensures
            n == protocol_len(self@),
    {
        byte_len(self.path.as_str())
    }
}

impl From<String> for WindowsPath {
    /// Holds `path` as it is.
    fn from(path: String) -> (p: WindowsPath)
        ensures
            p.path == path,
    {
        WindowsPath { path }
    }
}

impl FromSpecImpl<String> for WindowsPath {
    open spec fn obeys_from_spec() -> bool {
        true
    }

    open spec fn from_spec(path: String) -> Self {
        WindowsPath { path }
    }
}

/// A path in the Unix form that the shared directory is addressed by:
/// forward slashes, relative to the root of the shared directory.
#[derive(Debug)]
pub struct UnixPath {
    pub path: String,
}

impl View for UnixPath {
    type V = Seq<char>;

    open spec fn view(&self) -> Seq<char> {
        self.path@
    }
}

impl Clone for UnixPath {
    fn clone(&self) -> (copy: Self)
        ensures
            copy == *self,
    {
        UnixPath { path: self.path.clone() }
    }
}

impl UnixPath {
    /// The path as the bytes of a C string, which is how a native file
    /// system call takes it: its UTF-8 bytes followed by one NUL byte.
    ///
    /// # Errors
    ///
    /// Fails when the path holds a NUL character, and reports where its first
    /// NUL byte stands.
    pub fn to_cstring(&self) -> (r: Result<Vec<u8>, EmbeddedNulError>)
        ensures
            match r {
                Ok(bytes) => !self@.contains('\0') && bytes@ == nul_terminated(self@),
                Err(e) => self@.contains('\0') && is_first_nul(
                    encode_utf8(self@),
                    e.position as int,
                ),
            },
    {
        let s = self.path.as_str();
        proof {
            lemma_ascii_byte_occurs(s@, 0);
        }
        match find_byte(s.as_bytes(), 0) {
            Some(position) => Err(EmbeddedNulError { position }),
            None => {
                let mut bytes = s.as_bytes_vec();
                bytes.push(0);
                Ok(bytes)
            },
        }
    }

    /// The length of the path as the length fields of the redirection
    /// protocol count it: in bytes of its UTF-8 form, not in characters.
    pub fn len(&self) -> (n: u32)
        ensures
            n == protocol_len(self@),
    {
        byte_len(self.path.as_str())
    }

    /// The last segment of the path: what stands behind its last forward
    /// slash, or the whole path where it has none. There always is one.
    ///
    /// This is a plain split at the slashes and no basename: the last segment
    /// of a path that ends in a slash is the empty text behind that slash.
    pub fn last(&self) -> (segment: Option<&str>)
        ensures
            segment matches Some(name) && name@ == last_segment(self@),
    {
        let s = self.path.as_str();
        match rfind_byte(s.as_bytes(), 0x2F) {
            Some(at) => {
                let (head, tail) = split_around(s, at);
                proof {
                    lemma_ascii_byte_occurs(tail@, 0x2F);
                    lemma_last_segment_of_concat(head@.push('/'), tail@);
                }
                Some(tail)
            },
            None => {
                proof {
                    lemma_ascii_byte_occurs(s@, 0x2F);
                    lemma_last_segment_without_slash(s@);
                }
                Some(s)
            },
        }
    }
}

impl From<&WindowsPath> for UnixPath {
    /// Converts the path as `to_unix_path` does.
    fn from(p: &WindowsPath) -> (u: UnixPath)
        ensures
            u@ == unix_path(p@),
    {
        UnixPath { path: to_unix_path(p.path.as_str()) }
    }
}

impl FromSpecImpl<&WindowsPath> for UnixPath {
    open spec fn obeys_from_spec() -> bool {
        false
    }

    open spec fn from_spec(p: &WindowsPath) -> Self {
        arbitrary()
    }
}

impl From<String> for UnixPath {
    /// Holds `path` as it is.
    fn from(path: String) -> (p: UnixPath)
        ensures
            p.path == path,
    {
        UnixPath { path }
    }
}

impl FromSpecImpl<String> for UnixPath {
    open spec fn obeys_from_spec() -> bool {
        true
    }

    open spec fn from_spec(path: String) -> Self {
        UnixPath { path }
    }
}

/// The length that a path reports depends on its text alone, not on the
/// instance that holds it: a second `WindowsPath` made of the same text
/// reports the same length.
pub proof fn lemma_windows_len_rewrapped(
    p: &WindowsPath,
    again: &WindowsPath,
    p_len: u32,
    again_len: u32,
)
    requires
        p@ == again@,
        call_ensures(WindowsPath::len, (p,), p_len),
        call_ensures(WindowsPath::len, (again,), again_len),
    ensures
        p_len == again_len,
{
}

/// A second `UnixPath` made of the same text reports the same length.
pub proof fn lemma_unix_len_rewrapped(p: &UnixPath, again: &UnixPath, p_len: u32, again_len: u32)
    requires
        p@ == again@,
        call_ensures(UnixPath::len, (p,), p_len),
        call_ensures(UnixPath::len, (again,), again_len),
    ensures
        p_len == again_len,
{
}

/// The two path types count alike: a `WindowsPath` and a `UnixPath` that
/// hold the same text report the same length.
pub proof fn lemma_len_same_for_both_types(w: &WindowsPath, u: &UnixPath, w_len: u32, u_len: u32)
    requires
        w@ == u@,
        call_ensures(WindowsPath::len, (w,), w_len),
        call_ensures(UnixPath::len, (u,), u_len),
    ensures
        w_len == u_len,
{
}

/// The length counts bytes, not characters. For a text of ASCII characters
/// the two are the same, as long as the count fits in 32 bits; any other
/// character counts for more than one.
pub proof fn lemma_protocol_len_counts_bytes(s: Seq<char>)
    requires
        encode_utf8(s).len() < 0x1_0000_0000,
    ensures
        protocol_len(s) == encode_utf8(s).len(),
        protocol_len(s) >= s.len(),
        is_ascii_chars(s) ==> protocol_len(s) == s.len(),
{
    lemma_encode_len(s);
    if is_ascii_chars(s) {
        is_ascii_chars_encode_utf8(s);
    }
}

/// The number of bytes of `s`, cut to 32 bits.
fn byte_len(s: &str) -> (n: u32)
    ensures
        n == protocol_len(s@),
{
    let full: usize = s.as_bytes().len();
    let n: u32 = #[verifier::truncate] (full as u32);
    assert(n as u64 == (full as u64) % 0x1_0000_0000u64) by (bit_vector)
        requires
            n == full as u32,
    ;
    n
}

} // verus!
