//! The first word of a string, as a position and as a slice.

use crate::text::first_position;
use crate::text::lemma_first_position_is_first;
use vstd::prelude::*;
use vstd::string::StringSliceAdditionalSpecFns;
use vstd::utf8::char_is_scalar;
use vstd::utf8::encode_scalar;
use vstd::utf8::encode_utf8;
use vstd::utf8::encode_utf8_decode_utf8;
use vstd::utf8::encode_utf8_valid_utf8;
use vstd::utf8::has_width_1_encoding;
use vstd::utf8::has_width_2_encoding;
use vstd::utf8::has_width_3_encoding;
use vstd::utf8::is_char_boundary_iff_not_is_continuation_byte;
use vstd::utf8::is_char_boundary_start_end_of_seq;

verus! {

/// The byte that separates words: the encoding of a space.
pub const SPACE: u8 = 32;

/// The first word of `text`: what stands before its first space, or all of
/// it where it holds no space.
pub open spec fn first_word_spec(text: Seq<char>) -> Seq<char> {
    text.subrange(0, first_position(text, ' '))
}

/// `end` is where the first word of `bytes` ends: at the first space, or at
/// the end where there is no space.
pub open spec fn ends_first_word(bytes: Seq<u8>, end: int) -> bool {
    &&& 0 <= end <= bytes.len()
    &&& forall|i: int| 0 <= i < end ==> bytes[i] != SPACE
    &&& end < bytes.len() ==> bytes[end] == SPACE
}

/// The first word of a text ends in one place only.
pub proof fn lemma_first_word_end_unique(bytes: Seq<u8>, a: int, b: int)
    requires
        ends_first_word(bytes, a),
        ends_first_word(bytes, b),
    ensures
        a == b,
{
    if a < b {
        assert(bytes[a] != SPACE);
    } else if b < a {
        assert(bytes[b] != SPACE);
    }
}

proof fn lemma_marked_byte_is_no_space(x: u8)
    by (bit_vector)
    ensures
        0x80u8 | x != 32u8,
        0xC0u8 | x != 32u8,
        0xE0u8 | x != 32u8,
        0xF0u8 | x != 32u8,
{
}

proof fn lemma_single_byte_is_itself(scalar: u32)
    by (bit_vector)
    requires
        scalar <= 0x7Fu32,
    ensures
        ((scalar & 0x7Fu32) as u8 == 32u8) <==> scalar == 32u32,
{
}

/// A space is encoded as the one byte `SPACE`, and the encoding of any
/// other character holds no such byte.
pub proof fn lemma_encoding_of_space(c: char)
    ensures
        encode_scalar(c as u32).len() > 0,
        c == ' ' ==> encode_scalar(c as u32)[0] == SPACE,
        c != ' ' ==> forall|i: int|
            0 <= i < encode_scalar(c as u32).len() ==> #[trigger] encode_scalar(c as u32)[i]
                != SPACE,
{
    let scalar = c as u32;
    char_is_scalar(c);
    if has_width_1_encoding(scalar) {
        lemma_single_byte_is_itself(scalar);
    } else if has_width_2_encoding(scalar) {
        lemma_marked_byte_is_no_space(((scalar >> 6) & 0x1F) as u8);
        lemma_marked_byte_is_no_space((scalar & 0x3F) as u8);
    } else if has_width_3_encoding(scalar) {
        lemma_marked_byte_is_no_space(((scalar >> 12) & 0x0F) as u8);
        lemma_marked_byte_is_no_space(((scalar >> 6) & 0x3F) as u8);
        lemma_marked_byte_is_no_space((scalar & 0x3F) as u8);
    } else {
        lemma_marked_byte_is_no_space(((scalar >> 18) & 0x7) as u8);
        lemma_marked_byte_is_no_space(((scalar >> 12) & 0x3F) as u8);
        lemma_marked_byte_is_no_space(((scalar >> 6) & 0x3F) as u8);
        lemma_marked_byte_is_no_space((scalar & 0x3F) as u8);
    }
}

/// Where the characters of a text hold their first space after `end`
/// characters, its bytes hold their first space after the bytes of those
/// characters, and those bytes are the encoding of those characters.
pub proof fn lemma_first_word_bytes(text: Seq<char>, end: int)
    requires
        0 <= end <= text.len(),
        forall|i: int| 0 <= i < end ==> text[i] != ' ',
        end < text.len() ==> text[end] == ' ',
    ensures
        ends_first_word(encode_utf8(text), encode_utf8(text.subrange(0, end)).len() as int),
        encode_utf8(text).subrange(0, encode_utf8(text.subrange(0, end)).len() as int)
            == encode_utf8(text.subrange(0, end)),
    decreases end,
{
    let bytes = encode_utf8(text);
    let word = text.subrange(0, end);
    if end == 0 {
        assert(encode_utf8(word) =~= Seq::<u8>::empty());
        assert(bytes.subrange(0, 0) =~= Seq::<u8>::empty());
        if text.len() > 0 {
            lemma_encoding_of_space(text[0]);
        }
    } else {
        let first = encode_scalar(text[0] as u32);
        let rest = text.drop_first();
        lemma_encoding_of_space(text[0]);
        assert forall|i: int| 0 <= i < end - 1 implies rest[i] != ' ' by {
            assert(rest[i] == text[i + 1]);
        }
        lemma_first_word_bytes(rest, end - 1);
        let rest_word = rest.subrange(0, end - 1);
        let rest_end = encode_utf8(rest_word).len() as int;
        assert(word.drop_first() =~= rest_word);
        assert(word[0] == text[0]);
        assert(encode_utf8(word) =~= first + encode_utf8(rest_word));
        assert(bytes =~= first + encode_utf8(rest));
        let word_end = first.len() + rest_end;
        assert(bytes.subrange(0, word_end) =~= first + encode_utf8(rest).subrange(0, rest_end));
        assert forall|i: int| 0 <= i < word_end implies bytes[i] != SPACE by {
            if i >= first.len() {
                assert(bytes[i] == encode_utf8(rest)[i - first.len()]);
            }
        }
        if word_end < bytes.len() {
            assert(bytes[word_end] == encode_utf8(rest)[rest_end]);
        }
    }
}

/// Where the first word of `bytes` ends.
pub fn first_word_end(bytes: &[u8]) -> (end: usize)
    ensures
        ends_first_word(bytes@, end as int),
{
    let mut i: usize = 0;
    while i < bytes.len()
        invariant
            i <= bytes@.len(),
            forall|j: int| 0 <= j < i ==> bytes@[j] != SPACE,
        decreases bytes@.len() - i,
    {
        if bytes[i] == SPACE {
            return i;
        }
        i = i + 1;
    }
    i
}

/// The text of `s` up to the byte position `end`, which is where its first
/// word ends: the first word of `s`.
pub fn slice_to_word_end(s: &str, end: usize) -> (word: &str)
    requires
        ends_first_word(encode_utf8(s@), end as int),
    ensures
        word@ == first_word_spec(s@),
{
    let ghost bytes = encode_utf8(s@);
    let ghost stop = first_position(s@, ' ');
    proof {
        assert(bytes == s.spec_bytes());
        encode_utf8_valid_utf8(s@);
        if end < bytes.len() {
            is_char_boundary_iff_not_is_continuation_byte(bytes, end as int);
        } else {
            is_char_boundary_start_end_of_seq(bytes);
        }
    }
    let word = s.split_at(end).0;
    proof {
        lemma_first_position_is_first(s@, ' ');
        lemma_first_word_bytes(s@, stop);
        lemma_first_word_end_unique(
            bytes,
            end as int,
            encode_utf8(s@.subrange(0, stop)).len() as int,
        );
        assert(encode_utf8(word@) == encode_utf8(s@.subrange(0, stop)));
        encode_utf8_decode_utf8(word@);
        encode_utf8_decode_utf8(s@.subrange(0, stop));
    }
    word
}

/// The position, in bytes, at which the first word of `s` ends: that of
/// its first space, or its length where it has no space. It is the length
/// in bytes of the first word.
pub fn first_word(s: &String) -> (end: usize)
    ensures
        ends_first_word(encode_utf8(s@), end as int),
        end == encode_utf8(first_word_spec(s@)).len(),
{
    let bytes = s.as_str().as_bytes();
    let end = first_word_end(bytes);
    proof {
        let stop = first_position(s@, ' ');
        lemma_first_position_is_first(s@, ' ');
        lemma_first_word_bytes(s@, stop);
        lemma_first_word_end_unique(
            encode_utf8(s@),
            end as int,
            encode_utf8(s@.subrange(0, stop)).len() as int,
        );
    }
    end
}

/// The first word of `s`: the text before its first space, or all of it
/// where it has no space.
pub fn new_first_word(s: &String) -> (word: &str)
    ensures
        word@ == first_word_spec(s@),
{
    let text = s.as_str();
    let end = first_word_end(text.as_bytes());
    slice_to_word_end(text, end)
}

} // verus!
