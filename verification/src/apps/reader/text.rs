//! Text of a page: character decoding.

use vstd::prelude::*;
use vstd::utf8;

use crate::bytes::scalar_char;

verus! {

/// The replacement character that stands for malformed input.
pub const REPLACEMENT: char = '\u{FFFD}';

pub open spec fn is_continuation(b: u8) -> bool {
    128 <= b < 192
}

/// How many bytes a sequence led by `b`, which is no ASCII character, takes.
pub open spec fn sequence_len(b: u8) -> int {
    if b < 0xE0 {
        2
    } else if b < 0xF0 {
        3
    } else {
        4
    }
}

/// How many of the bytes after `pos`, up to the length that the leading byte
/// announces, are continuation bytes in a row.
pub open spec fn continuation_run(buf: Seq<u8>, pos: int, k: int) -> int
    decreases sequence_len(buf[pos]) - k,
{
    if k < sequence_len(buf[pos]) && is_continuation(buf[pos + k]) {
        continuation_run(buf, pos, k + 1)
    } else {
        k
    }
}

/// The number that a complete sequence at `pos` spells out, six bits to a
/// continuation byte.
pub open spec fn sequence_value(buf: Seq<u8>, pos: int) -> int {
    let b = buf[pos];
    if b < 0xE0 {
        (b % 32) * 64 + buf[pos + 1] % 64
    } else if b < 0xF0 {
        (b % 16) * 4096 + (buf[pos + 1] % 64) * 64 + buf[pos + 2] % 64
    } else {
        (b % 8) * 262144 + (buf[pos + 1] % 64) * 4096 + (buf[pos + 2] % 64) * 64 + buf[pos + 3] % 64
    }
}

/// The character for `v`, where `v` is a scalar value.
pub open spec fn scalar_or_replacement(v: int) -> char {
    if v <= 0xD7FF || 0xE000 <= v <= 0x10FFFF {
        v as char
    } else {
        REPLACEMENT
    }
}

/// The smallest number that takes a sequence of `len` bytes.
pub open spec fn least_value(len: int) -> int {
    if len == 2 {
        0x80
    } else if len == 3 {
        0x800
    } else {
        0x1_0000
    }
}

/// The complete sequence at `pos` starts as one may, and is no longer than its
/// number needs.
pub open spec fn well_led(buf: Seq<u8>, pos: int) -> bool {
    &&& 0xC0 <= buf[pos] < 0xF8
    &&& sequence_value(buf, pos) >= least_value(sequence_len(buf[pos]))
}

/// The UTF-8 character that starts at `pos` and the number of bytes it takes.
/// What is malformed is the replacement character: a sequence that the buffer
/// cuts off or whose continuation bytes break off, over the bytes that were
/// there, and a complete one that stands for no character, all of it.
pub open spec fn decoded_char(buf: Seq<u8>, pos: int) -> (char, int) {
    let b = buf[pos];
    let expected = sequence_len(b);
    if b < 0x80 {
        (b as char, 1)
    } else if pos + expected > buf.len() {
        (REPLACEMENT, buf.len() - pos)
    } else if continuation_run(buf, pos, 1) < expected {
        (REPLACEMENT, continuation_run(buf, pos, 1))
    } else if well_led(buf, pos) {
        (scalar_or_replacement(sequence_value(buf, pos)), expected)
    } else {
        (REPLACEMENT, expected)
    }
}

/// Decodes the character that starts at `pos`.
pub fn decode_utf8_char(buf: &[u8], pos: usize) -> (r: (char, usize))
    requires
        pos < buf@.len(),
    ensures
        r.0 == decoded_char(buf@, pos as int).0,
        r.1 == decoded_char(buf@, pos as int).1,
        1 <= r.1 <= 4,
        pos + r.1 <= buf@.len(),
{
    let len = buf.len();
    let b0 = buf[pos];
    if b0 < 0x80 {
        return (b0 as char, 1);
    }
    let mut cp: u32;
    let expected: usize;
    let least: u32;
    if b0 < 0xE0 {
        cp = (b0 % 32) as u32;
        expected = 2;
        least = 0x80;
    } else if b0 < 0xF0 {
        cp = (b0 % 16) as u32;
        expected = 3;
        least = 0x800;
    } else {
        cp = (b0 % 8) as u32;
        expected = 4;
        least = 0x1_0000;
    }
    if len - pos < expected {
        return (REPLACEMENT, len - pos);
    }
    let mut i: usize = 1;
    while i < expected
        invariant
            1 <= i <= expected <= 4,
            expected == sequence_len(b0),
            pos + expected <= len,
            len == buf@.len(),
            b0 == buf@[pos as int],
            b0 >= 0x80,
            continuation_run(buf@, pos as int, 1) == continuation_run(buf@, pos as int, i as int),
            i == 1 ==> cp == b0 % (if b0 < 0xE0 { 32u8 } else if b0 < 0xF0 { 16u8 } else { 8u8 }),
            i == 2 ==> cp == (b0 % (if b0 < 0xE0 { 32u8 } else if b0 < 0xF0 { 16u8 } else { 8u8 }))
                * 64 + buf@[pos + 1] % 64,
            i == 3 ==> cp == (b0 % (if b0 < 0xF0 { 16u8 } else { 8u8 })) * 4096 + (buf@[pos + 1]
                % 64) * 64 + buf@[pos + 2] % 64,
            i == 4 ==> cp == sequence_value(buf@, pos as int),
        decreases expected - i,
    {
        let cont = buf[pos + i];
        if !(128 <= cont && cont < 192) {
            return (REPLACEMENT, i);
        }
        cp = cp * 64 + (cont % 64) as u32;
        i += 1;
    }
    if b0 < 0xC0 || b0 >= 0xF8 || cp < least {
        return (REPLACEMENT, expected);
    }
    match scalar_char(cp) {
        Some(ch) => (ch, expected),
        None => (REPLACEMENT, expected),
    }
}

/// The bits of a sequence, put together, are the number that it spells out.
proof fn lemma_bits(b0: u8, b1: u8, b2: u8, b3: u8)
    ensures
        0xC0 <= b0 < 0xE0 ==> utf8::codepoint_width_2(b0, b1) == (b0 % 32) * 64 + b1 % 64,
        0xE0 <= b0 < 0xF0 ==> utf8::codepoint_width_3(b0, b1, b2) == (b0 % 16) * 4096 + (b1 % 64)
            * 64 + b2 % 64,
        0xF0 <= b0 < 0xF8 ==> utf8::codepoint_width_4(b0, b1, b2, b3) == (b0 % 8) * 262144 + (b1
            % 64) * 4096 + (b2 % 64) * 64 + b3 % 64,
{
    assert((((b0 & 0x1F) as u32) << 6) | ((b1 & 0x3f) as u32) == (b0 % 32) * 64 + b1 % 64)
        by (bit_vector);
    assert((((b0 & 0x0F) as u32) << 12) | (((b1 & 0x3f) as u32) << 6) | ((b2 & 0x3f) as u32) == (b0
        % 16) * 4096 + (b1 % 64) * 64 + b2 % 64) by (bit_vector);
    assert((((b0 & 0x07) as u32) << 18) | (((b1 & 0x3f) as u32) << 12) | (((b2 & 0x3f) as u32) << 6)
        | ((b3 & 0x3f) as u32) == (b0 % 8) * 262144 + (b1 % 64) * 4096 + (b2 % 64) * 64 + b3 % 64)
        by (bit_vector);
}

/// Decoding undoes encoding: where the encoding of a character stands, that
/// character is decoded, over just the bytes of its encoding.
pub proof fn law_decoding_undoes_encoding(buf: Seq<u8>, pos: int, c: char)
    requires
        0 <= pos,
        pos + utf8::encode_scalar(c as u32).len() <= buf.len(),
        buf.subrange(pos, pos + utf8::encode_scalar(c as u32).len()) == utf8::encode_scalar(
            c as u32,
        ),
    ensures
        decoded_char(buf, pos) == (c, utf8::encode_scalar(c as u32).len() as int),
        buf[pos] < 0x80 <==> (c as u32) < 0x80,
        buf[pos] < 0x80 ==> buf[pos] == c as u32,
        buf[pos] < 0x80 || 0xC0 <= buf[pos] < 0xF8,
{
    let e = utf8::encode_scalar(c as u32);
    let chars = seq![c];
    utf8::char_is_scalar(c);
    utf8::encode_utf8_first_scalar(chars);
    assert(chars.drop_first() =~= Seq::<char>::empty());
    assert(utf8::encode_utf8(chars) =~= e) by {
        reveal_with_fuel(utf8::encode_utf8, 2);
    }
    assert forall|k: int| 0 <= k < e.len() implies buf[pos + k] == e[k] by {
        assert(buf.subrange(pos, pos + e.len())[k] == buf[pos + k]);
    }
    assert(buf[pos] == e[0]);
    reveal_with_fuel(continuation_run, 5);
    if e.len() == 1 {
        let b = e[0];
        assert(b <= 0x7f ==> (b & 0x7F) as u32 == b) by (bit_vector);
    } else if e.len() == 2 {
        lemma_bits(e[0], e[1], 0, 0);
        assert(buf[pos + 1] == e[1]);
    } else if e.len() == 3 {
        lemma_bits(e[0], e[1], e[2], 0);
        assert(buf[pos + 1] == e[1] && buf[pos + 2] == e[2]);
    } else {
        lemma_bits(e[0], e[1], e[2], e[3]);
        assert(buf[pos + 1] == e[1] && buf[pos + 2] == e[2] && buf[pos + 3] == e[3]);
    }
}

/// Encoding undoes decoding: a character that is decoded is the one whose
/// encoding stands there, over all the bytes that it takes.
pub proof fn law_encoding_undoes_decoding(buf: Seq<u8>, pos: int)
    requires
        0 <= pos < buf.len(),
        decoded_char(buf, pos).0 != REPLACEMENT,
    ensures
        ({
            let (c, len) = decoded_char(buf, pos);
            &&& pos + len <= buf.len()
            &&& buf.subrange(pos, pos + len) == utf8::encode_scalar(c as u32)
        }),
{
    let (c, len) = decoded_char(buf, pos);
    let e = utf8::encode_scalar(c as u32);
    reveal_with_fuel(continuation_run, 5);
    utf8::char_is_scalar(c);
    assert(e.subrange(0, e.len() as int) =~= e);
    law_decoding_undoes_encoding(e, 0, c);
    assert(e.len() == len);
    if len == 2 {
        assert(e[0] % 32 == buf[pos] % 32 && e[1] % 64 == buf[pos + 1] % 64);
    } else if len == 3 {
        assert(e[0] % 16 == buf[pos] % 16 && e[1] % 64 == buf[pos + 1] % 64 && e[2] % 64 == buf[pos
            + 2] % 64);
    } else if len == 4 {
        assert(e[0] % 8 == buf[pos] % 8 && e[1] % 64 == buf[pos + 1] % 64 && e[2] % 64 == buf[pos
            + 2] % 64 && e[3] % 64 == buf[pos + 3] % 64);
    }
    assert(buf.subrange(pos, pos + len) =~= e);
}

/// What is malformed is one replacement character that takes at least a byte,
/// and none that starts something else, unless the buffer ends first.
pub proof fn law_malformed_bytes_hide_nothing(buf: Seq<u8>, pos: int, k: int)
    requires
        0 <= pos < buf.len(),
        pos + sequence_len(buf[pos]) <= buf.len(),
        0 < k < decoded_char(buf, pos).1,
    ensures
        1 <= decoded_char(buf, pos).1 <= 4,
        pos + decoded_char(buf, pos).1 <= buf.len(),
        is_continuation(buf[pos + k]),
{
    reveal_with_fuel(continuation_run, 5);
}

/// The end of `buf[start..end]` without one trailing carriage return.
pub open spec fn trimmed_end(buf: Seq<u8>, start: int, end: int) -> int {
    if end > start && buf[end - 1] == 13 {
        end - 1
    } else {
        end
    }
}

pub fn trim_trailing_cr(buf: &[u8], start: usize, end: usize) -> (r: usize)
    requires
        end <= buf@.len(),
    ensures
        r == trimmed_end(buf@, start as int, end as int),
{
    if end > start && buf[end - 1] == 13 {
        end - 1
    } else {
        end
    }
}

/// A space that separates words: the ASCII space and the no-break space.
pub open spec fn wrap_space(ch: char) -> bool {
    ch == ' ' || ch == '\u{00A0}'
}

pub fn is_wrap_space(ch: char) -> (r: bool)
    ensures
        r == wrap_space(ch),
{
    ch == ' ' || ch == '\u{00A0}'
}

} // verus!
