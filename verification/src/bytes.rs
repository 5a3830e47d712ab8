//! Byte-level building blocks: little-endian fields, ASCII case folding and
//! UTF-8 checks.

use vstd::prelude::*;
use vstd::utf8;

verus! {

/// The little-endian 16-bit number held at `s[i..i + 2]`.
pub open spec fn le16(s: Seq<u8>, i: int) -> int {
    s[i] + 256 * s[i + 1]
}

/// The little-endian 32-bit number held at `s[i..i + 4]`.
pub open spec fn le32(s: Seq<u8>, i: int) -> int {
    s[i] + 256 * s[i + 1] + 65536 * s[i + 2] + 16777216 * s[i + 3]
}

/// The little-endian form of a 16-bit number.
pub open spec fn le_bytes16(v: int) -> Seq<u8> {
    seq![(v % 256) as u8, (v / 256 % 256) as u8]
}

/// The little-endian form of a 32-bit number.
pub open spec fn le_bytes32(v: int) -> Seq<u8> {
    seq![
        (v % 256) as u8,
        (v / 256 % 256) as u8,
        (v / 65536 % 256) as u8,
        (v / 16777216 % 256) as u8,
    ]
}

/// A 16-bit number read from where it was written.
pub proof fn lemma_le16(v: u16, s: Seq<u8>, i: int)
    requires
        0 <= i,
        i + 2 <= s.len(),
        s[i] == le_bytes16(v as int)[0],
        s[i + 1] == le_bytes16(v as int)[1],
    ensures
        le16(s, i) == v,
{
}

/// A 32-bit number read from where it was written.
pub proof fn lemma_le32(v: u32, s: Seq<u8>, i: int)
    requires
        0 <= i,
        i + 4 <= s.len(),
        s[i] == le_bytes32(v as int)[0],
        s[i + 1] == le_bytes32(v as int)[1],
        s[i + 2] == le_bytes32(v as int)[2],
        s[i + 3] == le_bytes32(v as int)[3],
    ensures
        le32(s, i) == v,
{
}

pub fn read_le16(s: &[u8], i: usize) -> (r: u16)
    requires
        i + 2 <= s@.len(),
    ensures
        r == le16(s@, i as int),
{
    s[i] as u16 + 256 * (s[i + 1] as u16)
}

pub fn read_le32(s: &[u8], i: usize) -> (r: u32)
    requires
        i + 4 <= s@.len(),
    ensures
        r == le32(s@, i as int),
{
    s[i] as u32 + 256 * (s[i + 1] as u32) + 65536 * (s[i + 2] as u32) + 16777216 * (s[i
        + 3] as u32)
}

/// The lower-case form of an ASCII letter; every other byte stands for itself.
pub open spec fn lower(b: u8) -> u8 {
    if 65 <= b <= 90 {
        (b + 32) as u8
    } else {
        b
    }
}

pub fn to_lower(b: u8) -> (r: u8)
    ensures
        r == lower(b),
{
    if 65 <= b && b <= 90 {
        b + 32
    } else {
        b
    }
}

/// Two byte strings are the same up to ASCII case.
pub open spec fn eq_icase(a: Seq<u8>, b: Seq<u8>) -> bool {
    &&& a.len() == b.len()
    &&& forall|i: int| 0 <= i < a.len() ==> lower(#[trigger] a[i]) == lower(b[i])
}

pub proof fn lemma_eq_icase_flip(a: Seq<u8>, b: Seq<u8>)
    requires
        eq_icase(a, b),
    ensures
        eq_icase(b, a),
{
    assert forall|i: int| 0 <= i < b.len() implies lower(#[trigger] b[i]) == lower(a[i]) by {
        let _ = a[i];
    }
}

pub proof fn lemma_eq_icase_chain(a: Seq<u8>, b: Seq<u8>, c: Seq<u8>)
    requires
        eq_icase(a, b),
        eq_icase(b, c),
    ensures
        eq_icase(a, c),
{
    assert forall|i: int| 0 <= i < a.len() implies lower(#[trigger] a[i]) == lower(c[i]) by {
        let _ = b[i];
    }
}

pub fn eq_ignore_case(a: &[u8], b: &[u8]) -> (r: bool)
    ensures
        r == eq_icase(a@, b@),
{
    if a.len() != b.len() {
        return false;
    }
    let mut i: usize = 0;
    while i < a.len()
        invariant
            i <= a@.len(),
            a@.len() == b@.len(),
            forall|j: int| 0 <= j < i ==> lower(#[trigger] a@[j]) == lower(b@[j]),
        decreases a@.len() - i,
    {
        if to_lower(a[i]) != to_lower(b[i]) {
            assert(lower(a@[i as int]) != lower(b@[i as int]));
            return false;
        }
        i += 1;
    }
    true
}

pub fn eq_bytes(a: &[u8], b: &[u8]) -> (r: bool)
    ensures
        r == (a@ == b@),
{
    if a.len() != b.len() {
        return false;
    }
    let mut i: usize = 0;
    while i < a.len()
        invariant
            i <= a@.len(),
            a@.len() == b@.len(),
            forall|j: int| 0 <= j < i ==> a@[j] == b@[j],
        decreases a@.len() - i,
    {
        if a[i] != b[i] {
            return false;
        }
        i += 1;
    }
    assert(a@ =~= b@);
    true
}

/// `core::str::from_utf8`: the text that the bytes encode, and `None` exactly
/// when they are not well-formed UTF-8.
#[verifier::external_body]
pub(crate) fn utf8_text(b: &[u8]) -> (r: Option<&str>)
    ensures
        match r {
            Some(s) => utf8::valid_utf8(b@) && utf8::encode_utf8(s@) == b@,
            None => !utf8::valid_utf8(b@),
        },
{
    core::str::from_utf8(b).ok()
}

/// The text that `b` encodes, or `fallback` when it is not UTF-8.
pub fn utf8_or<'a>(b: &'a [u8], fallback: &'static str) -> (r: &'a str)
    ensures
        utf8::valid_utf8(b@) ==> utf8::encode_utf8(r@) == b@,
        !utf8::valid_utf8(b@) ==> r@ == fallback@,
{
    match utf8_text(b) {
        Some(s) => s,
        None => fallback,
    }
}

/// `char::from_u32`: the character with scalar value `v`, and `None` for
/// surrogates and values above 0x10FFFF.
#[verifier::external_body]
pub(crate) fn scalar_char(v: u32) -> (r: Option<char>)
    ensures
        r == (if v <= 0xD7FF || 0xE000 <= v <= 0x10FFFF {
            Some(v as char)
        } else {
            None
        }),
{
    char::from_u32(v)
}

/// The bytes of a text.
pub open spec fn text_bytes(s: &str) -> Seq<u8> {
    utf8::encode_utf8(s@)
}

/// A text of ASCII characters has the bytes one would expect.
pub proof fn lemma_ascii_text(s: &str)
    requires
        utf8::is_ascii_chars(s@),
    ensures
        text_bytes(s).len() == s@.len(),
        forall|i: int| 0 <= i < s@.len() ==> #[trigger] text_bytes(s)[i] == s@[i] as u8,
{
    utf8::is_ascii_chars_encode_utf8(s@);
}

/// The decimal form of a number.
pub open spec fn decimal(v: nat) -> Seq<u8>
    decreases v,
{
    if v < 10 {
        seq![(48 + v) as u8]
    } else {
        decimal(v / 10).push((48 + v % 10) as u8)
    }
}

/// Appends the decimal form of `v`.
pub fn push_decimal(out: &mut Vec<u8>, v: u64)
    ensures
        final(out)@ == old(out)@ + decimal(v as nat),
    decreases v,
{
    if v < 10 {
        out.push((48 + v) as u8);
    } else {
        push_decimal(out, v / 10);
        out.push((48 + v % 10) as u8);
    }
    assert(out@ =~= old(out)@ + decimal(v as nat));
}

/// Appends `b`.
pub fn push_bytes(out: &mut Vec<u8>, b: &[u8])
    ensures
        final(out)@ == old(out)@ + b@,
{
    out.extend_from_slice(b);
    assert(out@ =~= old(out)@ + b@);
}

/// The first place from `i` on that holds `b`, or the length.
pub open spec fn place_of(s: Seq<u8>, b: u8, i: int) -> int
    decreases s.len() - i,
{
    if i >= s.len() {
        s.len() as int
    } else if s[i] == b {
        i
    } else {
        place_of(s, b, i + 1)
    }
}

pub fn find_byte(s: &[u8], b: u8, from: usize) -> (r: usize)
    requires
        from <= s@.len(),
    ensures
        r == place_of(s@, b, from as int),
        from <= r <= s@.len(),
        r < s@.len() ==> s@[r as int] == b,
        forall|j: int| from <= j < r ==> s@[j] != b,
{
    let mut i = from;
    while i < s.len()
        invariant
            from <= i <= s@.len(),
            place_of(s@, b, from as int) == place_of(s@, b, i as int),
            forall|j: int| from <= j < i ==> s@[j] != b,
        decreases s@.len() - i,
    {
        if s[i] == b {
            return i;
        }
        i += 1;
    }
    i
}

pub proof fn lemma_place_of(s: Seq<u8>, b: u8, i: int, at: int)
    requires
        0 <= i <= at <= s.len(),
        forall|j: int| i <= j < at ==> s[j] != b,
        at < s.len() ==> s[at] == b,
    ensures
        place_of(s, b, i) == at,
    decreases at - i,
{
    if i < at {
        lemma_place_of(s, b, i + 1, at);
    }
}

} // verus!
