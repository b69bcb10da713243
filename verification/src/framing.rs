//! Where the lines of a text lie among its UTF-8 bytes: a line feed byte
//! encodes a line feed character and nothing else.

use crate::stream::{after_line, lemma_line_length, line_length, line_text, LINE_FEED};
use vstd::prelude::*;
use vstd::utf8::{
    char_is_scalar, char_u32_cast, encode_scalar, encode_utf8, encode_utf8_decode_utf8, encode_utf8_valid_utf8,
    has_width_1_encoding, last_continuation_byte, leading_byte_width_1, leading_byte_width_2,
    leading_byte_width_3, leading_byte_width_4, second_last_continuation_byte,
    third_last_continuation_byte,
};

verus! {

/// No byte of a multi-byte encoding is a line feed, and the byte of a
/// one-byte encoding is one only for the scalar ten.
proof fn lemma_line_feed_bits(scalar: u32)
    by (bit_vector)
    ensures
        has_width_1_encoding(scalar) ==> (leading_byte_width_1(scalar) == 10 <==> scalar == 10),
        leading_byte_width_2(scalar) != 10,
        leading_byte_width_3(scalar) != 10,
        leading_byte_width_4(scalar) != 10,
        last_continuation_byte(scalar) != 10,
        second_last_continuation_byte(scalar) != 10,
        third_last_continuation_byte(scalar) != 10,
{
}

/// The encoding of a text is the encoding of its parts, one after the
/// other.
pub proof fn lemma_encode_concat(a: Seq<char>, b: Seq<char>)
    ensures
        encode_utf8(a + b) == encode_utf8(a) + encode_utf8(b),
    decreases a.len(),
{
    if a.len() == 0 {
        assert(a + b =~= b);
        assert(encode_utf8(a) + encode_utf8(b) =~= encode_utf8(b));
    } else {
        assert((a + b)[0] == a[0]);
        assert((a + b).drop_first() =~= a.drop_first() + b);
        lemma_encode_concat(a.drop_first(), b);
        assert(encode_scalar(a[0] as u32) + (encode_utf8(a.drop_first()) + encode_utf8(b))
            =~= encode_utf8(a) + encode_utf8(b));
    }
}

/// The encoding of a text without a line feed holds no line feed byte.
pub proof fn lemma_encode_without_line_feed(text: Seq<char>)
    requires
        !text.contains('\n'),
    ensures
        !encode_utf8(text).contains(LINE_FEED),
    decreases text.len(),
{
    if text.len() > 0 {
        let first = encode_scalar(text[0] as u32);
        let rest = text.drop_first();
        assert(!rest.contains('\n')) by {
            if rest.contains('\n') {
                let i = choose|i: int| 0 <= i < rest.len() && rest[i] == '\n';
                assert(text[i + 1] == '\n');
            }
        }
        lemma_encode_without_line_feed(rest);
        lemma_line_feed_bits(text[0] as u32);
        assert(text[0] as u32 != 10) by {
            char_is_scalar(text[0]);
            char_u32_cast(text[0], text[0] as u32);
            char_u32_cast('\n', 10u32);
        }
        if encode_utf8(text).contains(LINE_FEED) {
            let i = choose|i: int| 0 <= i < encode_utf8(text).len() && encode_utf8(text)[i] == LINE_FEED;
            if i < first.len() {
                assert(encode_utf8(text)[i] == first[i]);
            } else {
                assert(encode_utf8(text)[i] == encode_utf8(rest)[i - first.len()]);
            }
        }
    }
}

/// The line feed character is encoded as the line feed byte.
pub proof fn lemma_encode_line_feed()
    ensures
        encode_utf8(seq!['\n']) == seq![LINE_FEED],
{
    let text = seq!['\n'];
    lemma_line_feed_bits(10u32);
    assert(text[0] as u32 == 10);
    assert(text.drop_first() =~= Seq::<char>::empty());
    assert(encode_scalar(10u32) =~= seq![LINE_FEED]);
    assert(encode_utf8(text.drop_first()) =~= Seq::<u8>::empty());
    assert(encode_utf8(text) == encode_scalar(text[0] as u32) + encode_utf8(text.drop_first()));
    assert(encode_utf8(text) =~= seq![LINE_FEED]);
}

/// A line of text in front of any bytes is read back as that line, and
/// the bytes are what is left.
pub proof fn lemma_line_is_read_back(content: Seq<char>, tail: Seq<u8>)
    requires
        !content.contains('\n'),
    ensures
        line_text(encode_utf8(content + seq!['\n']) + tail) == Some(content + seq!['\n']),
        after_line(encode_utf8(content + seq!['\n']) + tail) == tail,
{
    let line = content + seq!['\n'];
    let bytes = encode_utf8(line);
    let data = bytes + tail;
    lemma_encode_concat(content, seq!['\n']);
    lemma_encode_line_feed();
    lemma_encode_without_line_feed(content);
    lemma_line_length(data);
    let end = encode_utf8(content).len() as int;
    assert(data[end] == LINE_FEED);
    assert(line_length(data) == end + 1) by {
        if line_length(data) < end + 1 {
            let at = line_length(data) - 1;
            assert(data[at] == encode_utf8(content)[at]);
        }
    }
    assert(data.take(end + 1) =~= bytes);
    assert(data.skip(end + 1) =~= tail);
    encode_utf8_valid_utf8(line);
    encode_utf8_decode_utf8(line);
}

} // verus!
