//! Text encodings of keywords and definitions.

use vstd::prelude::*;
use vstd::utf8::decode_utf8;
use vstd::utf8::valid_utf8;

verus! {

/// The text encoding that a dictionary declares in its header.
#[derive(Clone, Copy, Debug, PartialEq, Eq, Structural)]
pub enum MDictEncoding {
    /// UTF-8.
    Utf8,
    /// UTF-16, little-endian.
    Utf16Le,
    /// GBK.
    Gbk,
    /// Big5.
    Big5,
    /// ISO 8859-1: every byte is the code point of its character.
    Latin1,
}

/// The encodings that are decoded by the tables of `encoding_rs`.
#[derive(Clone, Copy, Debug, PartialEq, Eq, Structural)]
pub enum LegacyEncoding {
    /// UTF-16, little-endian.
    Utf16Le,
    /// GBK.
    Gbk,
    /// Big5.
    Big5,
}

/// The text that the decoder of `encoding_rs` yields for `bytes` in
/// `encoding`, or `None` where it finds a malformed sequence.
pub uninterp spec fn legacy_text(encoding: LegacyEncoding, bytes: Seq<u8>) -> Option<Seq<char>>;

/// The Latin-1 reading of a byte string.
pub open spec fn latin1_text(bytes: Seq<u8>) -> Seq<char> {
    Seq::new(bytes.len(), |i: int| bytes[i] as char)
}

/// The text that `bytes` stand for in `encoding`, or `None` where they are
/// malformed.
pub open spec fn text_of(encoding: MDictEncoding, bytes: Seq<u8>) -> Option<Seq<char>> {
    match encoding {
        MDictEncoding::Utf8 => if valid_utf8(bytes) {
            Some(decode_utf8(bytes))
        } else {
            None
        },
        MDictEncoding::Latin1 => Some(latin1_text(bytes)),
        MDictEncoding::Utf16Le => legacy_text(LegacyEncoding::Utf16Le, bytes),
        MDictEncoding::Gbk => legacy_text(LegacyEncoding::Gbk, bytes),
        MDictEncoding::Big5 => legacy_text(LegacyEncoding::Big5, bytes),
    }
}

/// Calls `Encoding::decode_without_bom_handling_and_without_replacement` of
/// `encoding_rs` on the static that stands for `encoding`. The contract
/// only names the outcome: the text, or nothing where the decoder meets a
/// malformed sequence.
#[verifier::external_body]
fn decode_legacy(encoding: LegacyEncoding, bytes: &[u8]) -> (res: Option<String>)
    ensures
        match res {
            Some(s) => legacy_text(encoding, bytes@) == Some(s@),
            None => legacy_text(encoding, bytes@) is None,
        },
{
    let codec = match encoding {
        LegacyEncoding::Utf16Le => encoding_rs::UTF_16LE,
        LegacyEncoding::Gbk => encoding_rs::GBK,
        LegacyEncoding::Big5 => encoding_rs::BIG5,
    };
    codec.decode_without_bom_handling_and_without_replacement(bytes).map(|s| s.into_owned())
}

/// Calls `encoding_rs::mem::decode_latin1`, which reads every byte as the
/// code point of one character.
#[verifier::external_body]
fn decode_latin1(bytes: &[u8]) -> (res: String)
    ensures
        res@ == latin1_text(bytes@),
{
    encoding_rs::mem::decode_latin1(bytes).into_owned()
}

/// Calls `String::from_utf8` of std: the bytes as a string where they are
/// well-formed UTF-8, nothing otherwise.
#[verifier::external_body]
pub(crate) fn string_from_utf8(bytes: Vec<u8>) -> (res: Option<String>)
    ensures
        res is Some <==> valid_utf8(bytes@),
        res is Some ==> res.unwrap()@ == decode_utf8(bytes@),
{
    String::from_utf8(bytes).ok()
}

/// Decodes `bytes` from `encoding`.
pub fn decode_text(encoding: MDictEncoding, bytes: &[u8]) -> (res: Option<String>)
    ensures
        res is Some <==> text_of(encoding, bytes@) is Some,
        res is Some ==> res.unwrap()@ == text_of(encoding, bytes@).unwrap(),
{
    match encoding {
        MDictEncoding::Utf8 => string_from_utf8(vstd::slice::slice_to_vec(bytes)),
        MDictEncoding::Latin1 => Some(decode_latin1(bytes)),
        MDictEncoding::Utf16Le => decode_legacy(LegacyEncoding::Utf16Le, bytes),
        MDictEncoding::Gbk => decode_legacy(LegacyEncoding::Gbk, bytes),
        MDictEncoding::Big5 => decode_legacy(LegacyEncoding::Big5, bytes),
    }
}

} // verus!
