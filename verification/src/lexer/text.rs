//! Characters inside UTF-8 text.
//!
//! The scanner addresses its input by byte offset.  This module says which
//! character stands at an offset and how many bytes it takes, and proves
//! that stepping over characters keeps an offset on a character boundary.

use vstd::prelude::*;
use vstd::utf8::*;

verus! {

/// The character whose encoding starts at byte `pos` of `src`.
pub open spec fn char_at(src: Seq<u8>, pos: int) -> char {
    decode_first_scalar(src.skip(pos)) as char
}

/// The number of bytes taken by the character that starts at byte `pos`.
pub open spec fn width_at(src: Seq<u8>, pos: int) -> int {
    length_of_first_scalar(src.skip(pos))
}

/// The bytes of `src` from `pos` on, at most `n` of them.
pub open spec fn peek(src: Seq<u8>, pos: int, n: int) -> Seq<u8> {
    if pos + n <= src.len() {
        src.subrange(pos, pos + n)
    } else {
        src.subrange(pos, src.len() as int)
    }
}

/// Whether the bytes of `src` from `pos` on begin with `pattern`.
pub open spec fn starts_with(src: Seq<u8>, pos: int, pattern: Seq<u8>) -> bool {
    peek(src, pos, pattern.len() as int) == pattern
}

/// The first position at or after `pos` whose byte fails `keep`, or the
/// end of `src` where every byte from `pos` on passes.
pub open spec fn run_end(src: Seq<u8>, pos: int, keep: spec_fn(u8) -> bool) -> int
    decreases src.len() - pos,
{
    if 0 <= pos < src.len() && keep(src[pos]) {
        run_end(src, pos + 1, keep)
    } else {
        pos
    }
}

/// A run ends inside the text, holds only bytes that pass, and stops at a
/// byte that fails or at the end.
pub proof fn lemma_run_end(src: Seq<u8>, pos: int, keep: spec_fn(u8) -> bool)
    requires
        0 <= pos <= src.len(),
    ensures
        pos <= run_end(src, pos, keep) <= src.len(),
        forall|i: int| pos <= i < run_end(src, pos, keep) ==> keep(#[trigger] src[i]),
        run_end(src, pos, keep) < src.len() ==> !keep(src[run_end(src, pos, keep)]),
    decreases src.len() - pos,
{
    if pos < src.len() && keep(src[pos]) {
        lemma_run_end(src, pos + 1, keep);
    }
}

/// A run that is entered at any of its positions ends where it ends.
pub proof fn lemma_run_end_from_inside(
    src: Seq<u8>,
    pos: int,
    mid: int,
    keep: spec_fn(u8) -> bool,
)
    requires
        0 <= pos <= mid <= src.len(),
        forall|i: int| pos <= i < mid ==> keep(#[trigger] src[i]),
    ensures
        run_end(src, pos, keep) == run_end(src, mid, keep),
    decreases mid - pos,
{
    if pos < mid {
        lemma_run_end_from_inside(src, pos + 1, mid, keep);
    }
}

/// An ASCII byte is a character of its own, with the byte's value.
pub proof fn lemma_ascii_at(src: Seq<u8>, pos: int)
    requires
        0 <= pos < src.len(),
        src[pos] < 0x80,
    ensures
        char_at(src, pos) as u32 == src[pos] as u32,
        char_at(src, pos) == src[pos] as char,
        width_at(src, pos) == 1,
{
    let b = src[pos];
    assert(src.skip(pos)[0] == b);
    assert((b & 0x7F) as u32 == b as u32) by (bit_vector)
        requires
            b < 0x80,
    ;
}

/// A character that starts with a byte outside ASCII is itself outside
/// ASCII.
pub proof fn lemma_non_ascii_at(src: Seq<u8>, pos: int)
    requires
        0 <= pos < src.len(),
        valid_first_scalar(src.skip(pos)),
        src[pos] >= 0x80,
    ensures
        char_at(src, pos) as u32 >= 0x80,
        char_at(src, pos) as u32 == decode_first_scalar(src.skip(pos)),
        2 <= width_at(src, pos) <= 4,
{
    let tail = src.skip(pos);
    assert(tail[0] == src[pos]);
    let v = decode_first_scalar(tail);
    lemma_scalar_of_valid(tail);
}

/// The value decoded from a well-formed encoding is a Unicode scalar.
proof fn lemma_scalar_of_valid(bytes: Seq<u8>)
    requires
        valid_first_scalar(bytes),
    ensures
        is_scalar(decode_first_scalar(bytes)),
        1 <= length_of_first_scalar(bytes) <= 4,
        length_of_first_scalar(bytes) <= bytes.len(),
        bytes[0] >= 0x80 ==> decode_first_scalar(bytes) >= 0x80 && length_of_first_scalar(bytes)
            >= 2,
{
    let b0 = bytes[0];
    if is_leading_byte_width_1(b0) {
        assert((b0 & 0x7F) as u32 <= 0x7F) by (bit_vector);
    } else if is_leading_byte_width_2(b0) {
        let b1 = bytes[1];
        assert((((b0 & 0x1F) as u32) << 6) | ((b1 & 0x3F) as u32) <= 0x7FF) by (bit_vector);
    } else if is_leading_byte_width_3(b0) {
        let b1 = bytes[1];
        let b2 = bytes[2];
        assert((((b0 & 0x0F) as u32) << 12) | (((b1 & 0x3F) as u32) << 6) | ((b2 & 0x3F) as u32)
            <= 0xFFFF) by (bit_vector);
    } else {
    }
}

/// Stepping over the character at a boundary reaches the next boundary.
pub proof fn lemma_boundary_step(src: Seq<u8>, pos: int)
    requires
        valid_utf8(src),
        is_char_boundary(src, pos),
        0 <= pos < src.len(),
    ensures
        valid_first_scalar(src.skip(pos)),
        1 <= width_at(src, pos) <= 4,
        pos + width_at(src, pos) <= src.len(),
        is_char_boundary(src, pos + width_at(src, pos)),
    decreases src.len(),
{
    let first = length_of_first_scalar(src);
    let rest = pop_first_scalar(src);
    lemma_scalar_of_valid(src);
    if pos == 0 {
        assert(src.skip(0) =~= src);
        assert(is_char_boundary(rest, 0));
    } else {
        assert(is_char_boundary(rest, pos - first));
        assert(pos - first >= 0);
        lemma_boundary_step(rest, pos - first);
        assert(rest.skip(pos - first) =~= src.skip(pos));
        assert(is_char_boundary(rest, pos + width_at(src, pos) - first));
    }
}

/// An ASCII byte of well-formed text stands on a boundary, and so does the
/// byte after it.
pub proof fn lemma_boundary_around_ascii(src: Seq<u8>, pos: int)
    requires
        valid_utf8(src),
        0 <= pos < src.len(),
        src[pos] < 0x80,
    ensures
        is_char_boundary(src, pos),
        is_char_boundary(src, pos + 1),
{
    is_char_boundary_iff_not_is_continuation_byte(src, pos);
    lemma_boundary_step(src, pos);
    lemma_ascii_at(src, pos);
}

/// The end of well-formed text is a boundary.
pub proof fn lemma_boundary_at_end(src: Seq<u8>)
    requires
        valid_utf8(src),
    ensures
        is_char_boundary(src, src.len() as int),
{
    is_char_boundary_start_end_of_seq(src);
}

/// The text between two boundaries is well formed, and its boundaries are
/// boundaries of the whole.
pub proof fn lemma_boundary_in_prefix(src: Seq<u8>, from: int, to: int)
    requires
        valid_utf8(src),
        0 <= from <= to <= src.len(),
        is_char_boundary(src, from),
        is_char_boundary(src, to),
    ensures
        valid_utf8(src.subrange(0, to)),
        is_char_boundary(src.subrange(0, to), from),
{
    valid_utf8_split(src, to);
    let head = src.subrange(0, to);
    if from == to {
        is_char_boundary_start_end_of_seq(head);
    } else {
        is_char_boundary_iff_not_is_continuation_byte(src, from);
        is_char_boundary_iff_not_is_continuation_byte(head, from);
    }
}

} // verus!
