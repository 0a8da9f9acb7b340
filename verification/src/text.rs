//! Byte offsets into UTF-8 text.
//!
//! Tokens refer to the text by byte offsets, while the tokenizer walks it one
//! Unicode scalar value at a time. This module relates the two: the byte offset
//! of each character, and the characters that lie between two such offsets.

use crate::token::BufferSlice;
use vstd::prelude::*;
use vstd::utf8::*;

verus! {

/// Taken on trust: `char::len_utf8` gives the number of bytes that the character's
/// UTF-8 encoding takes.
pub assume_specification[ char::len_utf8 ](c: char) -> (n: usize)
    ensures
        n == utf8_width(c),
;

/// The number of bytes that `c` takes in UTF-8: between one and four.
pub open spec fn utf8_width(c: char) -> nat {
    encode_scalar(c as u32).len()
}

/// The byte offset at which the character with index `i` starts; for `i == text.len()`,
/// the number of bytes of the whole text.
pub open spec fn byte_offset(text: Seq<char>, i: int) -> nat
    decreases i,
{
    if i <= 0 {
        0
    } else {
        byte_offset(text, i - 1) + utf8_width(text[i - 1])
    }
}

/// The text is short enough for every byte offset into it to be a `usize`.
pub open spec fn addressable(text: Seq<char>) -> bool {
    byte_offset(text, text.len() as int) <= usize::MAX
}

/// The slice that spans the characters from index `from` up to index `to`.
pub open spec fn span(text: Seq<char>, from: int, to: int) -> BufferSlice {
    BufferSlice { start: byte_offset(text, from) as usize, end: byte_offset(text, to) as usize }
}

/// The slice lies within the text, in order, and cuts no character in two.
pub open spec fn slice_fits(text: Seq<char>, slice: BufferSlice) -> bool {
    let bytes = encode_utf8(text);
    &&& slice.start <= slice.end <= bytes.len()
    &&& is_char_boundary(bytes, slice.start as int)
    &&& is_char_boundary(bytes, slice.end as int)
}

/// The characters that the slice refers to; none where the slice does not fit the text.
pub open spec fn slice_text(text: Seq<char>, slice: BufferSlice) -> Seq<char> {
    if slice_fits(text, slice) {
        decode_utf8(encode_utf8(text).subrange(slice.start as int, slice.end as int))
    } else {
        Seq::empty()
    }
}

/// A character is a Unicode scalar value: a code point that is no surrogate.
pub proof fn lemma_char_range(c: char)
    ensures
        0 <= c as int <= 0xD7FF || 0xE000 <= c as int <= 0x10FFFF,
{
}

/// A character takes between one and four bytes, and an ASCII character one.
pub proof fn lemma_utf8_width_bounds(c: char)
    ensures
        1 <= utf8_width(c) <= 4,
        c as u32 <= 0x7f ==> utf8_width(c) == 1,
{
}

/// The next character starts after the bytes of this one.
pub proof fn lemma_byte_offset_step(text: Seq<char>, i: int)
    requires
        0 <= i < text.len(),
    ensures
        byte_offset(text, i + 1) == byte_offset(text, i) + utf8_width(text[i]),
        byte_offset(text, i) < byte_offset(text, i + 1),
{
    lemma_utf8_width_bounds(text[i]);
}

/// A later character starts at a greater byte offset, by at least one byte for each
/// character between.
pub proof fn lemma_byte_offset_monotonic(text: Seq<char>, i: int, j: int)
    requires
        0 <= i <= j <= text.len(),
    ensures
        byte_offset(text, i) <= byte_offset(text, j),
        i < j ==> byte_offset(text, i) < byte_offset(text, j),
        byte_offset(text, j) - byte_offset(text, i) >= j - i,
    decreases j - i,
{
    if i < j {
        lemma_byte_offset_monotonic(text, i, j - 1);
        lemma_byte_offset_step(text, j - 1);
    }
}

/// Encoding distributes over concatenation.
pub proof fn lemma_encode_concat(a: Seq<char>, b: Seq<char>)
    ensures
        encode_utf8(a + b) == encode_utf8(a) + encode_utf8(b),
    decreases a.len(),
{
    if a.len() > 0 {
        assert((a + b).drop_first() =~= a.drop_first() + b);
        lemma_encode_concat(a.drop_first(), b);
    }
}

/// The byte offset of a character is the length of the encoding of what precedes it.
pub proof fn lemma_byte_offset_is_encoded_len(text: Seq<char>, i: int)
    requires
        0 <= i <= text.len(),
    ensures
        byte_offset(text, i) == encode_utf8(text.subrange(0, i)).len(),
    decreases i,
{
    if i > 0 {
        lemma_byte_offset_is_encoded_len(text, i - 1);
        let head = text.subrange(0, i - 1);
        let last = seq![text[i - 1]];
        assert(text.subrange(0, i) =~= head + last);
        lemma_encode_concat(head, last);
        reveal_with_fuel(encode_utf8, 2);
    }
}

/// The end of an encoded prefix is a character boundary of the whole encoding.
proof fn lemma_boundary_after_prefix(a: Seq<char>, b: Seq<char>)
    ensures
        is_char_boundary(encode_utf8(a + b), encode_utf8(a).len() as int),
    decreases a.len(),
{
    broadcast use encode_utf8_valid_utf8;

    let bytes = encode_utf8(a + b);
    if a.len() > 0 {
        let rest = a.drop_first();
        assert((a + b).drop_first() =~= rest + b);
        encode_utf8_first_scalar(a + b);
        lemma_utf8_width_bounds(a[0]);
        assert(pop_first_scalar(bytes) =~= encode_utf8(rest + b));
        lemma_boundary_after_prefix(rest, b);
    }
}

/// The slice between the offsets of two characters fits the text, holds the
/// characters between them, and is as long as their encoding.
pub proof fn lemma_span_text(text: Seq<char>, from: int, to: int)
    requires
        0 <= from <= to <= text.len(),
        addressable(text),
    ensures
        span(text, from, to).start == byte_offset(text, from),
        span(text, from, to).end == byte_offset(text, to),
        span(text, from, to).end - span(text, from, to).start == encode_utf8(
            text.subrange(from, to),
        ).len(),
        slice_fits(text, span(text, from, to)),
        slice_text(text, span(text, from, to)) == text.subrange(from, to),
{
    broadcast use encode_utf8_decode_utf8;

    let bytes = encode_utf8(text);
    let head = text.subrange(0, from);
    let mid = text.subrange(from, to);
    let tail = text.subrange(to, text.len() as int);
    lemma_byte_offset_monotonic(text, from, to);
    lemma_byte_offset_monotonic(text, to, text.len() as int);
    lemma_byte_offset_is_encoded_len(text, from);
    lemma_byte_offset_is_encoded_len(text, to);
    assert(text =~= head + (mid + tail));
    assert(text =~= (head + mid) + tail);
    assert(text.subrange(0, to) =~= head + mid);
    lemma_encode_concat(head, mid + tail);
    lemma_encode_concat(mid, tail);
    lemma_encode_concat(head, mid);
    lemma_encode_concat(head + mid, tail);
    lemma_boundary_after_prefix(head, mid + tail);
    lemma_boundary_after_prefix(head + mid, tail);
    assert(bytes.subrange(byte_offset(text, from) as int, byte_offset(text, to) as int)
        =~= encode_utf8(mid));
}

} // verus!
