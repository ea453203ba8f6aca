//! Length-prefixed text: a little-endian `u32` byte count followed by that many
//! bytes of UTF-8.

use vstd::prelude::*;
use vstd::utf8::{
    decode_utf8, decode_utf8_encode_utf8, encode_utf8, encode_utf8_decode_utf8,
    encode_utf8_valid_utf8, valid_utf8,
};

verus! {

/// The four bytes of `n`, lowest first.
pub open spec fn le32(n: u32) -> Seq<u8> {
    seq![
        (n % 256) as u8,
        ((n / 256) % 256) as u8,
        ((n / 65536) % 256) as u8,
        ((n / 16777216) % 256) as u8,
    ]
}

/// The number whose four bytes, lowest first, are at the head of `bytes`.
pub open spec fn from_le32(bytes: Seq<u8>) -> int {
    bytes[0] + 256 * bytes[1] + 65536 * bytes[2] + 16777216 * bytes[3]
}

/// The digits of a number written to the base 256 are found again by
/// dividing.
proof fn lemma_digits(a: int, b: int, c: int, d: int)
    requires
        0 <= a < 256,
        0 <= b < 256,
        0 <= c < 256,
        0 <= d < 256,
    ensures
        0 <= a + 256 * b + 65536 * c + 16777216 * d <= u32::MAX,
        (a + 256 * b + 65536 * c + 16777216 * d) % 256 == a,
        ((a + 256 * b + 65536 * c + 16777216 * d) / 256) % 256 == b,
        ((a + 256 * b + 65536 * c + 16777216 * d) / 65536) % 256 == c,
        ((a + 256 * b + 65536 * c + 16777216 * d) / 16777216) % 256 == d,
{
}

/// Four bytes hold a number below 2^32, and `le32` gives its bytes back.
pub proof fn lemma_le32_of_bytes(bytes: Seq<u8>)
    requires
        bytes.len() == 4,
    ensures
        0 <= from_le32(bytes) <= u32::MAX,
        le32(from_le32(bytes) as u32) == bytes,
{
    lemma_digits(bytes[0] as int, bytes[1] as int, bytes[2] as int, bytes[3] as int);
}

/// The number read from the bytes of `n` is `n`.
pub proof fn lemma_le32_value(n: u32)
    ensures
        le32(n).len() == 4,
        from_le32(le32(n)) == n,
{
}

/// The number of bytes `text` takes as UTF-8.
pub open spec fn text_len(text: Seq<char>) -> int {
    encode_utf8(text).len() as int
}

/// Whether the byte count of `text` fits its length prefix.
pub open spec fn frameable(text: Seq<char>) -> bool {
    text_len(text) <= u32::MAX
}

/// `text` with its length prefix in front.
pub open spec fn framed_text(text: Seq<char>) -> Seq<u8> {
    le32(text_len(text) as u32) + encode_utf8(text)
}

/// The byte count announced by the length prefix at the head of `bytes`.
pub open spec fn announced_len(bytes: Seq<u8>) -> int {
    from_le32(bytes.subrange(0, 4))
}

/// The text framed at the head of `bytes`: the prefix must be whole, the
/// announced bytes must all be there, and they must be UTF-8.
pub open spec fn parse_text(bytes: Seq<u8>) -> Option<Seq<char>> {
    if bytes.len() < 4 {
        None
    } else if 4 + announced_len(bytes) > bytes.len() {
        None
    } else if !valid_utf8(bytes.subrange(4, 4 + announced_len(bytes))) {
        None
    } else {
        Some(decode_utf8(bytes.subrange(4, 4 + announced_len(bytes))))
    }
}

/// A framed text has four bytes more than the text itself.
pub proof fn lemma_framed_len(text: Seq<char>)
    ensures
        framed_text(text).len() == 4 + text_len(text),
{
}

/// Whatever follows a framed text, parsing gives the text back.
pub proof fn lemma_parse_framed(text: Seq<char>, rest: Seq<u8>)
    requires
        frameable(text),
    ensures
        parse_text(framed_text(text) + rest) == Some(text),
{
    let payload = encode_utf8(text);
    lemma_le32_value(payload.len() as u32);
    let bytes = framed_text(text) + rest;
    assert(bytes.subrange(0, 4) =~= le32(payload.len() as u32));
    assert(bytes.subrange(4, 4 + payload.len() as int) =~= payload);
    encode_utf8_valid_utf8(text);
    encode_utf8_decode_utf8(text);
}

/// A parsed text is exactly what is framed at the head of the bytes.
pub proof fn lemma_parsed_is_framed(bytes: Seq<u8>)
    requires
        parse_text(bytes) is Some,
    ensures
        frameable(parse_text(bytes)->0),
        4 + text_len(parse_text(bytes)->0) <= bytes.len(),
        text_len(parse_text(bytes)->0) == announced_len(bytes),
        framed_text(parse_text(bytes)->0) == bytes.take(4 + text_len(parse_text(bytes)->0)),
{
    let n = announced_len(bytes);
    let payload = bytes.subrange(4, 4 + n);
    decode_utf8_encode_utf8(payload);
    lemma_le32_of_bytes(bytes.subrange(0, 4));
}

/// The number of bytes `text` takes as UTF-8.
pub fn byte_len(text: &String) -> (n: usize)
    ensures
        n == text_len(text@),
{
    text.as_str().as_bytes().len()
}

/// Reads the text framed at the head of `bytes`.
///
/// Trusted: calls `solana_program::borsh1::try_from_slice_unchecked` at `String`,
/// which runs borsh's reader for `String` on the slice and ignores what is left
/// over. That reader takes a little-endian `u32` count, then that many bytes,
/// and accepts them only as valid UTF-8; it reports an error where bytes are
/// missing or are not UTF-8. The error itself is dropped.
#[verifier::external_body]
pub(crate) fn read_text(bytes: &[u8]) -> (r: Option<String>)
    ensures
        r matches Some(text) ==> parse_text(bytes@) == Some(text@),
        r is None ==> parse_text(bytes@) is None,
{
    solana_program::borsh1::try_from_slice_unchecked::<String>(bytes).ok()
}

/// Frames `text`.
///
/// Trusted: calls `borsh::to_vec` at `String`, which writes the byte count of
/// the text as a little-endian `u32` and then its UTF-8 bytes, and reports an
/// error only where the count does not fit a `u32`. The error itself is dropped.
#[verifier::external_body]
pub(crate) fn write_text(text: &String) -> (r: Option<Vec<u8>>)
    ensures
        r matches Some(bytes) ==> frameable(text@) && bytes@ == framed_text(text@),
        r is None ==> !frameable(text@),
{
    borsh::to_vec(text).ok()
}

} // verus!
