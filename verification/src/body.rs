//! The request body: how long the headers say it is, and its text.

use crate::headers::HeaderMap;
use crate::number::{parse_u32, parsed_u32};
use vstd::prelude::*;
use vstd::utf8::{decode_utf8, valid_utf8};

verus! {

/// The number of body bytes that a header mapping announces: the value of
/// `Content-Length`, looked up under exactly that spelling, where it writes
/// a `u32`; zero where the header is absent or writes none.
pub open spec fn declared_length(headers: Map<Seq<char>, Seq<char>>) -> u32 {
    if headers.contains_key("Content-Length"@) {
        match parsed_u32(headers["Content-Length"@]) {
            Some(length) => length,
            None => 0,
        }
    } else {
        0
    }
}

/// The number of body bytes to read after the header block.
pub fn content_length(headers: &HeaderMap) -> (length: u32)
    ensures
        length == declared_length(headers@),
{
    match headers.get("Content-Length") {
        Some(value) => match parse_u32(value.as_str()) {
            Some(length) => length,
            None => 0,
        },
        None => 0,
    }
}

/// What `String::from_utf8_lossy` makes of `bytes`: their text, with
/// U+FFFD in place of every sequence that is not valid UTF-8.
pub uninterp spec fn lossy_text(bytes: Seq<u8>) -> Seq<char>;

/// The text of a body: the text that `bytes` encode where they are valid
/// UTF-8, and their lossy decoding where they are not.
pub open spec fn body_text(bytes: Seq<u8>) -> Seq<char> {
    if valid_utf8(bytes) {
        decode_utf8(bytes)
    } else {
        lossy_text(bytes)
    }
}

/// Decodes bytes with `String::from_utf8_lossy`.
///
/// Trusted: the result is a function of the bytes alone, named
/// [`lossy_text`], and bytes that are valid UTF-8 decode to the text that
/// they encode. What the replacement makes of other bytes is not stated.
#[verifier::external_body]
fn decode_lossy(bytes: &Vec<u8>) -> (text: String)
    ensures
        text@ == lossy_text(bytes@),
        valid_utf8(bytes@) ==> text@ == decode_utf8(bytes@),
{
    String::from_utf8_lossy(bytes).into_owned()
}

/// Decodes the bytes of a body. Bytes that are no valid UTF-8 do not make
/// the read fail: they are replaced.
pub fn decode_body(bytes: &Vec<u8>) -> (text: String)
    ensures
        text@ == body_text(bytes@),
{
    decode_lossy(bytes)
}

} // verus!
