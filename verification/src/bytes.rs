//! Texts cut by the offsets of their UTF-8 bytes.
use crate::text::{copy_range, string_of};
use vstd::prelude::*;
use vstd::utf8::{decode_utf8, encode_scalar, encode_utf8, encode_utf8_decode_utf8, encode_utf8_first_scalar, encode_utf8_valid_utf8, is_char_boundary, is_char_boundary_iff_not_is_continuation_byte, is_char_boundary_start_end_of_seq, pop_first_scalar, valid_utf8_split};

verus! {

/// Whether a byte offset lies within `s` and between two of its characters.
pub open spec fn on_boundary(s: Seq<char>, at: int) -> bool {
    0 <= at <= encode_utf8(s).len() && is_char_boundary(encode_utf8(s), at)
}

/// The text between two byte offsets of `s`.
pub open spec fn byte_slice(s: Seq<char>, from: int, to: int) -> Seq<char> {
    decode_utf8(encode_utf8(s).subrange(from, to))
}

/// How many bytes `s` has.
pub fn byte_len(s: &str) -> (n: usize)
    ensures
        n == encode_utf8(s@).len(),
{
    s.as_bytes().len()
}

/// Whether a byte offset lies within `s` and between two of its characters.
pub fn is_on_boundary(s: &str, at: usize) -> (b: bool)
    ensures
        b == on_boundary(s@, at as int),
{
    at <= byte_len(s) && s.is_char_boundary(at)
}

/// A boundary of a text is one of its beginning as well.
proof fn boundary_of_beginning(bytes: Seq<u8>, at: int, end: int)
    requires
        vstd::utf8::valid_utf8(bytes),
        0 <= at <= end <= bytes.len(),
        is_char_boundary(bytes, at),
        is_char_boundary(bytes, end),
    ensures
        is_char_boundary(bytes.subrange(0, end), at),
{
    let head = bytes.subrange(0, end);
    valid_utf8_split(bytes, end);
    if at == end {
        is_char_boundary_start_end_of_seq(head);
    } else {
        assert(head[at] == bytes[at]);
        is_char_boundary_iff_not_is_continuation_byte(head, at);
        is_char_boundary_iff_not_is_continuation_byte(bytes, at);
    }
}

/// The text between two byte offsets of `s`.
pub fn slice_bytes(s: &str, from: usize, to: usize) -> (part: String)
    requires
        from <= to,
        on_boundary(s@, from as int),
        on_boundary(s@, to as int),
    ensures
        part@ == byte_slice(s@, from as int, to as int),
{
    let ghost bytes = encode_utf8(s@);
    proof {
        encode_utf8_valid_utf8(s@);
        boundary_of_beginning(bytes, from as int, to as int);
    }
    let head = s.split_at(to).0;
    let part = head.split_at(from).1;
    proof {
        encode_utf8_decode_utf8(part@);
        assert(bytes.subrange(0, to as int).subrange(from as int, to as int) == bytes.subrange(
            from as int,
            to as int,
        ));
    }
    part.to_string()
}

/// How many bytes the first `n` characters of `s` have.
pub open spec fn byte_offset(s: Seq<char>, n: int) -> int {
    encode_utf8(s.subrange(0, n)).len() as int
}

/// The bytes of two texts in a row are the bytes of the one, then those of the other.
pub proof fn encode_concat(a: Seq<char>, b: Seq<char>)
    ensures
        encode_utf8(a + b) == encode_utf8(a) + encode_utf8(b),
    decreases a.len(),
{
    if a.len() == 0 {
        assert(a + b == b);
        assert(encode_utf8(a) + encode_utf8(b) == encode_utf8(b));
    } else {
        encode_concat(a.drop_first(), b);
        assert((a + b).drop_first() == a.drop_first() + b);
        assert(encode_scalar(a[0] as u32) + (encode_utf8(a.drop_first()) + encode_utf8(b)) == (
        encode_scalar(a[0] as u32) + encode_utf8(a.drop_first())) + encode_utf8(b));
    }
}

/// Between the bytes of two texts in a row there is a boundary.
proof fn boundary_between(a: Seq<char>, b: Seq<char>)
    ensures
        is_char_boundary(encode_utf8(a + b), encode_utf8(a).len() as int),
    decreases a.len(),
{
    let all = a + b;
    let bytes = encode_utf8(all);
    encode_utf8_valid_utf8(all);
    encode_concat(a, b);
    if a.len() == 0 {
        is_char_boundary_start_end_of_seq(bytes);
    } else {
        boundary_between(a.drop_first(), b);
        assert(all.drop_first() == a.drop_first() + b);
        encode_utf8_first_scalar(all);
        assert(pop_first_scalar(bytes) == encode_utf8(all.drop_first()));
    }
}

/// More characters have more bytes.
pub proof fn byte_offset_grows(s: Seq<char>, m: int, n: int)
    requires
        0 <= m <= n <= s.len(),
    ensures
        0 <= byte_offset(s, m) <= byte_offset(s, n) <= encode_utf8(s).len(),
{
    assert(s.subrange(0, n) == s.subrange(0, m) + s.subrange(m, n));
    encode_concat(s.subrange(0, m), s.subrange(m, n));
    assert(s == s.subrange(0, n) + s.subrange(n, s.len() as int));
    encode_concat(s.subrange(0, n), s.subrange(n, s.len() as int));
}

/// The bytes between two characters of a text are those of the characters between.
pub proof fn slice_between_characters(s: Seq<char>, m: int, n: int)
    requires
        0 <= m <= n <= s.len(),
    ensures
        on_boundary(s, byte_offset(s, m)),
        on_boundary(s, byte_offset(s, n)),
        byte_slice(s, byte_offset(s, m), byte_offset(s, n)) == s.subrange(m, n),
{
    let head = s.subrange(0, m);
    let middle = s.subrange(m, n);
    let tail = s.subrange(n, s.len() as int);
    byte_offset_grows(s, m, n);
    assert(s == head + (middle + tail));
    boundary_between(head, middle + tail);
    assert(s == (head + middle) + tail);
    assert(s.subrange(0, n) == head + middle);
    boundary_between(head + middle, tail);
    encode_concat(head, middle + tail);
    encode_concat(middle, tail);
    encode_concat(head, middle);
    assert(encode_utf8(s).subrange(byte_offset(s, m), byte_offset(s, n)) == encode_utf8(middle));
    encode_utf8_decode_utf8(middle);
}

/// How many bytes the first `n` characters of `s` have.
pub fn byte_offset_of(s: &Vec<char>, n: usize) -> (offset: usize)
    requires
        n <= s@.len(),
    ensures
        offset == byte_offset(s@, n as int),
{
    byte_len(string_of(&copy_range(s, 0, n)).as_str())
}

} // verus!
