//! Base64 and UTF-8 conversions, done by the `base64` crate and by the
//! standard library.

use vstd::prelude::*;
use vstd::utf8::{decode_utf8, encode_utf8, valid_utf8};

verus! {

/// The standard, padded base64 text that `base64::encode` gives for `bytes`.
pub uninterp spec fn base64_encoded(bytes: Seq<u8>) -> Seq<char>;

/// The bytes that `base64::decode` reads from `text`, none where it refuses
/// the text.
pub uninterp spec fn base64_decoded(text: Seq<u8>) -> Option<Seq<u8>>;

/// The longest input, in bytes, handed to the base64 functions: both compute
/// the size of their output before they start, and give up above it.
pub open spec fn codec_limit() -> int {
    (usize::MAX / 2) as int
}

/// The base64 text of the UTF-8 bytes of `text`.
pub open spec fn encoded_text(text: Seq<char>) -> Seq<char> {
    base64_encoded(encode_utf8(text))
}

/// The string that a base64 text stands for: the decoded bytes read as
/// UTF-8, none where the text is not base64 or the bytes are not UTF-8.
pub open spec fn decoded_text(text: Seq<char>) -> Option<Seq<char>> {
    match base64_decoded(encode_utf8(text)) {
        Some(bytes) if valid_utf8(bytes) => Some(decode_utf8(bytes)),
        _ => None,
    }
}

/// Calls `base64::encode` on the bytes of `input`: the result is the named
/// value [`base64_encoded`] of those bytes. The call panics when the size of
/// the output does not fit in `usize`; the bound on the input leaves that out.
#[verifier::external_body]
fn base64_encode(input: &str) -> (r: String)
    requires
        encode_utf8(input@).len() <= codec_limit(),
    ensures
        r@ == base64_encoded(encode_utf8(input@)),
{
    base64::encode(input)
}

/// Calls `base64::decode` on the bytes of `input`: the result is the named
/// value [`base64_decoded`] of those bytes, an error standing for none. The
/// call panics when its size estimate overflows; the bound on the input
/// leaves that out.
#[verifier::external_body]
fn base64_decode(input: &str) -> (r: Option<Vec<u8>>)
    requires
        encode_utf8(input@).len() <= codec_limit(),
    ensures
        match r {
            Some(bytes) => base64_decoded(encode_utf8(input@)) == Some(bytes@),
            None => base64_decoded(encode_utf8(input@)) is None,
        },
{
    match base64::decode(input) {
        Ok(bytes) => Some(bytes),
        Err(_) => None,
    }
}

/// Calls `String::from_utf8`: it gives the string that the bytes encode when
/// they are valid UTF-8, and refuses them otherwise.
#[verifier::external_body]
fn string_from_utf8(bytes: Vec<u8>) -> (r: Option<String>)
    ensures
        match r {
            Some(s) => valid_utf8(bytes@) && s@ == decode_utf8(bytes@),
            None => !valid_utf8(bytes@),
        },
{
    match String::from_utf8(bytes) {
        Ok(text) => Some(text),
        Err(_) => None,
    }
}

/// Encodes a text as base64.
pub fn encode_text(text: &str) -> (r: String)
    requires
        encode_utf8(text@).len() <= codec_limit(),
    ensures
        r@ == encoded_text(text@),
{
    base64_encode(text)
}

/// Decodes a base64 text into the string it stands for.
pub fn decode_base64(text: &str) -> (r: Result<String, ()>)
    requires
        encode_utf8(text@).len() <= codec_limit(),
    ensures
        match r {
            Ok(s) => decoded_text(text@) == Some(s@),
            Err(_) => decoded_text(text@) is None,
        },
{
    match base64_decode(text) {
        Some(bytes) => {
            match string_from_utf8(bytes) {
                Some(s) => Ok(s),
                None => Err(()),
            }
        },
        None => Err(()),
    }
}

/// Whether a text is short enough for the base64 functions.
pub fn within_codec_limit(text: &str) -> (r: bool)
    ensures
        r == (encode_utf8(text@).len() <= codec_limit()),
{
    text.as_bytes().len() <= usize::MAX / 2
}

} // verus!
