//! How ASCII characters of a text show in its UTF-8 bytes.
//!
//! The path functions scan bytes for separators and terminators. The lemmas
//! here carry what such a scan finds over to the characters of the text.

use vstd::prelude::*;
use vstd::utf8::*;

verus! {

/// True when `c` is encoded in a single byte.
pub open spec fn is_ascii_char(c: char) -> bool {
    (c as u32) < 0x80
}

/// An ASCII character is encoded as the one byte of its code. Every byte in
/// the encoding of any other character has its high bit set.
pub proof fn lemma_encode_scalar_bytes(c: char)
    ensures
        is_ascii_char(c) ==> encode_scalar(c as u32).len() == 1 && encode_scalar(c as u32)[0]
            == c as u32,
        !is_ascii_char(c) ==> forall|i: int|
            0 <= i < encode_scalar(c as u32).len() ==> #[trigger] encode_scalar(c as u32)[i]
                >= 0x80,
        1 <= encode_scalar(c as u32).len() <= 4,
{
    let s = c as u32;
    if has_width_1_encoding(s) {
        assert(leading_byte_width_1(s) as u32 == s) by (bit_vector)
            requires
                s <= 0x7F,
        ;
    } else {
        assert(leading_byte_width_2(s) >= 0x80) by (bit_vector);
        assert(leading_byte_width_3(s) >= 0x80) by (bit_vector);
        assert(leading_byte_width_4(s) >= 0x80) by (bit_vector);
        assert(last_continuation_byte(s) >= 0x80) by (bit_vector);
        assert(second_last_continuation_byte(s) >= 0x80) by (bit_vector);
        assert(third_last_continuation_byte(s) >= 0x80) by (bit_vector);
    }
}

/// The encoding of a text has at least one byte for each character.
pub proof fn lemma_encode_len(s: Seq<char>)
    ensures
        encode_utf8(s).len() >= s.len(),
    decreases s.len(),
{
    if s.len() > 0 {
        lemma_encode_scalar_bytes(s[0]);
        lemma_encode_len(s.drop_first());
    }
}

/// The encoding of a text begins with the ASCII byte `b` exactly when the
/// text begins with the character of that code.
pub proof fn lemma_first_byte(s: Seq<char>, b: u8)
    requires
        b < 0x80,
    ensures
        (encode_utf8(s).len() > 0 && encode_utf8(s)[0] == b) <==> (s.len() > 0 && s[0]
            == b as char),
{
    if s.len() > 0 {
        lemma_encode_scalar_bytes(s[0]);
        if encode_utf8(s)[0] == b {
            char_u32_cast(s[0], b as u32);
        }
    }
}

/// An ASCII byte occurs in the encoding of a text exactly when the character
/// with that code occurs in the text.
pub proof fn lemma_ascii_byte_occurs(s: Seq<char>, b: u8)
    requires
        b < 0x80,
    ensures
        encode_utf8(s).contains(b) <==> s.contains(b as char),
    decreases s.len(),
{
    let c = b as char;
    if s.len() > 0 {
        let head = encode_scalar(s[0] as u32);
        let rest = s.drop_first();
        lemma_encode_scalar_bytes(s[0]);
        lemma_ascii_byte_occurs(rest, b);
        if encode_utf8(s).contains(b) {
            // The byte is the encoding of the first character or stands behind it.
            let i = choose|i: int| 0 <= i < encode_utf8(s).len() && encode_utf8(s)[i] == b;
            if i < head.len() {
                char_u32_cast(s[0], b as u32);
            } else {
                assert(encode_utf8(rest)[i - head.len()] == b);
                let k = choose|k: int| 0 <= k < rest.len() && rest[k] == c;
                assert(s[k + 1] == c);
            }
        }
        if s.contains(c) {
            // The character is the first one or stands behind it.
            let k = choose|k: int| 0 <= k < s.len() && s[k] == c;
            if k == 0 {
                assert(encode_utf8(s)[0] == b);
            } else {
                assert(rest[k - 1] == c);
                let i = choose|i: int| 0 <= i < encode_utf8(rest).len() && encode_utf8(rest)[i] == b;
                assert(encode_utf8(s)[head.len() + i] == b);
            }
        }
    }
}

/// A text is determined by its bytes.
pub proof fn lemma_encode_injective(a: Seq<char>, b: Seq<char>)
    requires
        encode_utf8(a) == encode_utf8(b),
    ensures
        a == b,
{
    encode_utf8_decode_utf8(a);
    encode_utf8_decode_utf8(b);
}

/// The text whose encoding is the single ASCII byte `b` is the character
/// with that code.
pub proof fn lemma_single_ascii_byte(s: Seq<char>, b: u8)
    requires
        b < 0x80,
        encode_utf8(s) == seq![b],
    ensures
        s == seq![b as char],
{
    let c = b as char;
    lemma_encode_scalar_bytes(c);
    assert(encode_utf8(seq![c].drop_first()) =~= Seq::<u8>::empty());
    lemma_encode_injective(s, seq![c]);
}

/// Cutting the bytes of a text at a character boundary cuts the text: where
/// `head` and `tail` are encoded as the two parts, `t` is `head + tail`.
pub proof fn lemma_split_text(t: Seq<char>, head: Seq<char>, tail: Seq<char>, mid: int)
    requires
        is_char_boundary(encode_utf8(t), mid),
        0 <= mid <= encode_utf8(t).len(),
        encode_utf8(head) == encode_utf8(t).subrange(0, mid),
        encode_utf8(tail) == encode_utf8(t).subrange(mid, encode_utf8(t).len() as int),
    ensures
        t == head + tail,
{
    let bytes = encode_utf8(t);
    encode_utf8_valid_utf8(t);
    decode_utf8_split(bytes, mid);
    encode_utf8_decode_utf8(t);
    encode_utf8_decode_utf8(head);
    encode_utf8_decode_utf8(tail);
}

/// An ASCII byte in the encoding of a text is a whole character: it begins
/// at a character boundary, and the next one follows directly behind it.
pub proof fn lemma_ascii_byte_boundaries(t: Seq<char>, at: int)
    requires
        0 <= at < encode_utf8(t).len(),
        encode_utf8(t)[at] < 0x80,
    ensures
        is_char_boundary(encode_utf8(t), at),
        is_char_boundary(
            encode_utf8(t).subrange(at, encode_utf8(t).len() as int),
            1,
        ),
{
    let bytes = encode_utf8(t);
    encode_utf8_valid_utf8(t);
    is_char_boundary_iff_is_leading_byte(bytes, at);
    valid_utf8_split(bytes, at);
    reveal_with_fuel(is_char_boundary, 2);
}

} // verus!

