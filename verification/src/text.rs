//! Occurrences in a text and in its UTF-8 form.
//!
//! The find engine scans bytes and reports byte offsets. The laws here say
//! that this is the same as looking for the search term character by
//! character: an occurrence among the bytes starts where a character starts,
//! and is an occurrence among the characters.

use crate::matching::occurs_at;
use vstd::prelude::*;
use vstd::utf8::{
    decode_utf8, decode_utf8_encode_utf8, decode_utf8_split, encode_scalar,
    encode_utf8, encode_utf8_decode_utf8, encode_utf8_valid_utf8, is_char_boundary,
    is_char_boundary_iff_not_is_continuation_byte, is_continuation_byte, length_of_first_scalar,
    pop_first_scalar, valid_first_scalar, valid_utf8, valid_utf8_split,
};

verus! {

/// `needle` stands in `text` at character index `at`.
pub open spec fn text_occurs_at(text: Seq<char>, needle: Seq<char>, at: int) -> bool {
    &&& 0 <= at
    &&& at + needle.len() <= text.len()
    &&& text.subrange(at, at + needle.len()) == needle
}

/// The byte offset, in the UTF-8 form of `text`, at which the character with
/// index `at` starts.
pub open spec fn byte_offset(text: Seq<char>, at: int) -> int {
    encode_utf8(text.take(at)).len() as int
}

/// The UTF-8 form of a text is that of its parts, one behind the other.
pub proof fn lemma_encode_concat(front: Seq<char>, back: Seq<char>)
    ensures
        encode_utf8(front + back) == encode_utf8(front) + encode_utf8(back),
    decreases front.len(),
{
    if front.len() == 0 {
        assert(front + back =~= back);
        assert(encode_utf8(front) + encode_utf8(back) =~= encode_utf8(back));
    } else {
        lemma_encode_concat(front.drop_first(), back);
        assert((front + back).drop_first() =~= front.drop_first() + back);
        assert((front + back)[0] == front[0]);
        assert(encode_utf8(front + back) =~= encode_utf8(front) + encode_utf8(back));
    }
}

/// A text has no more characters than its UTF-8 form has bytes.
pub proof fn lemma_chars_within_bytes(text: Seq<char>)
    ensures
        text.len() <= encode_utf8(text).len(),
    decreases text.len(),
{
    if text.len() > 0 {
        lemma_chars_within_bytes(text.drop_first());
        assert(encode_scalar(text[0] as u32).len() >= 1);
    }
}

/// Where the search term stands among the characters of a text, its UTF-8
/// form stands among the bytes, at the byte offset of that character.
pub proof fn lemma_text_occurrence_is_byte_occurrence(
    text: Seq<char>,
    needle: Seq<char>,
    at: int,
)
    requires
        text_occurs_at(text, needle, at),
    ensures
        occurs_at(encode_utf8(text), encode_utf8(needle), byte_offset(text, at)),
{
    let front = text.take(at);
    let back = text.skip(at + needle.len());
    assert(text =~= front + needle + back);
    lemma_encode_concat(front + needle, back);
    lemma_encode_concat(front, needle);
    let bytes = encode_utf8(text);
    let start = encode_utf8(front).len() as int;
    assert(bytes == encode_utf8(front) + encode_utf8(needle) + encode_utf8(back));
    assert(bytes.subrange(start, start + encode_utf8(needle).len()) =~= encode_utf8(needle));
}

/// In valid UTF-8 that begins with other valid UTF-8, a character starts
/// right behind that beginning.
proof fn lemma_boundary_behind_prefix(bytes: Seq<u8>, prefix: Seq<u8>)
    requires
        valid_utf8(bytes),
        valid_utf8(prefix),
        prefix.len() <= bytes.len(),
        bytes.subrange(0, prefix.len() as int) == prefix,
    ensures
        is_char_boundary(bytes, prefix.len() as int),
    decreases prefix.len(),
{
    if prefix.len() > 0 {
        let width = length_of_first_scalar(prefix);
        assert(valid_first_scalar(prefix));
        assert(1 <= width <= prefix.len());
        assert(prefix[0] == bytes.subrange(0, prefix.len() as int)[0]);
        assert(bytes[0] == prefix[0]);
        assert(length_of_first_scalar(bytes) == width);
        let rest = pop_first_scalar(bytes);
        let prefix_rest = pop_first_scalar(prefix);
        assert(rest.subrange(0, prefix_rest.len() as int) =~= prefix_rest) by {
            assert forall|i: int| 0 <= i < prefix_rest.len() implies rest[i] == prefix_rest[i] by {
                assert(prefix[width + i] == bytes.subrange(0, prefix.len() as int)[width + i]);
            }
        }
        lemma_boundary_behind_prefix(rest, prefix_rest);
    }
}

/// Where the UTF-8 form of a search term that is not empty stands among the
/// bytes of a text, the term stands among the characters, and the byte
/// offset is that of the character where it starts.
pub proof fn lemma_byte_occurrence_is_text_occurrence(
    text: Seq<char>,
    needle: Seq<char>,
    offset: int,
) -> (at: int)
    requires
        needle.len() > 0,
        occurs_at(encode_utf8(text), encode_utf8(needle), offset),
    ensures
        text_occurs_at(text, needle, at),
        byte_offset(text, at) == offset,
{
    let bytes = encode_utf8(text);
    let term = encode_utf8(needle);
    encode_utf8_valid_utf8(text);
    encode_utf8_valid_utf8(needle);
    encode_utf8_decode_utf8(text);
    encode_utf8_decode_utf8(needle);
    lemma_chars_within_bytes(needle);
    let end = bytes.len() as int;
    // The occurrence starts where a character starts.
    assert(bytes[offset] == bytes.subrange(offset, offset + term.len())[0]);
    assert(is_char_boundary(term, 0));
    is_char_boundary_iff_not_is_continuation_byte(term, 0);
    is_char_boundary_iff_not_is_continuation_byte(bytes, offset);
    assert(is_char_boundary(bytes, offset));
    // So the bytes split there, and what follows begins with the term.
    let front = bytes.subrange(0, offset);
    let tail = bytes.subrange(offset, end);
    valid_utf8_split(bytes, offset);
    decode_utf8_split(bytes, offset);
    assert(tail.subrange(0, term.len() as int) =~= term);
    lemma_boundary_behind_prefix(tail, term);
    decode_utf8_split(tail, term.len() as int);
    let back = tail.subrange(term.len() as int, tail.len() as int);
    let before = decode_utf8(front);
    let after = decode_utf8(back);
    assert(text == before + (needle + after));
    let at = before.len() as int;
    assert(text.subrange(at, at + needle.len()) =~= needle);
    assert(text.take(at) =~= before);
    decode_utf8_encode_utf8(front);
    at
}

} // verus!
