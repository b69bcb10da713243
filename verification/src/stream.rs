//! A byte stream held in memory: the bytes that a peer has sent before it
//! closed the connection, read front to back.

use vstd::prelude::*;
use vstd::slice::{slice_subrange, slice_to_vec};
use vstd::utf8::{decode_utf8, valid_utf8};

verus! {

/// The byte that ends a line.
pub const LINE_FEED: u8 = 10;

/// The length of the first line of `data`, its line feed included: all of
/// `data` where it holds no line feed.
pub open spec fn line_length(data: Seq<u8>) -> int {
    match data.index_of_first(LINE_FEED) {
        Some(at) => at + 1,
        None => data.len() as int,
    }
}

/// The bytes that follow the first line of `data`.
pub open spec fn after_line(data: Seq<u8>) -> Seq<u8> {
    data.skip(line_length(data))
}

/// The text of the first line of `data`, its terminator included; none
/// where the line is not valid UTF-8. At the end of the data the line is
/// empty.
pub open spec fn line_text(data: Seq<u8>) -> Option<Seq<char>> {
    let line = data.take(line_length(data));
    if valid_utf8(line) {
        Some(decode_utf8(line))
    } else {
        None
    }
}

/// The first line of `data` ends within `data` and takes at least one
/// byte unless `data` is empty. It holds no line feed before its last byte,
/// and where that is no line feed either, the line is all of `data`.
pub proof fn lemma_line_length(data: Seq<u8>)
    ensures
        0 <= line_length(data) <= data.len(),
        data.len() > 0 ==> line_length(data) > 0,
        forall|i: int| 0 <= i < line_length(data) - 1 ==> data[i] != LINE_FEED,
        line_length(data) > 0 && data[line_length(data) - 1] != LINE_FEED ==> line_length(data)
            == data.len() && !data.contains(LINE_FEED),
{
    data.index_of_first_ensures(LINE_FEED);
}

/// What `text` stands for in contracts.
pub open spec fn text_view(text: Option<String>) -> Option<Seq<char>> {
    match text {
        Some(s) => Some(s@),
        None => None,
    }
}

/// Reads bytes as text with `String::from_utf8`.
///
/// Trusted: the call succeeds exactly on valid UTF-8, and the text is the
/// one that the bytes encode.
#[verifier::external_body]
fn text_from_utf8(bytes: Vec<u8>) -> (text: Option<String>)
    ensures
        text is Some <==> valid_utf8(bytes@),
        text matches Some(s) ==> s@ == decode_utf8(bytes@),
{
    match String::from_utf8(bytes) {
        Ok(text) => Some(text),
        Err(_) => None,
    }
}

/// Bytes to be read once, from the first to the last.
///
/// Its view is what is still unread.
#[derive(Debug)]
pub struct ByteStream {
    data: Vec<u8>,
    read: usize,
}

impl View for ByteStream {
    type V = Seq<u8>;

    closed spec fn view(&self) -> Seq<u8> {
        self.data@.skip(self.read as int)
    }
}

impl ByteStream {
    #[verifier::type_invariant]
    spec fn read_within_data(&self) -> bool {
        self.read <= self.data.len()
    }

    /// A stream that will give `data` and then end.
    pub fn new(data: Vec<u8>) -> (stream: ByteStream)
        ensures
            stream@ == data@,
    {
        assert(data@.skip(0) =~= data@);
        ByteStream { data, read: 0 }
    }

    /// The number of bytes still unread.
    pub fn remaining(&self) -> (count: usize)
        ensures
            count == self@.len(),
    {
        proof {
            use_type_invariant(self);
        }
        self.data.len() - self.read
    }

    /// Reads one line, through its line feed or to the end of the stream.
    ///
    /// Gives the line as text, terminator included, or nothing where the
    /// line is not valid UTF-8; the line is consumed either way.
    pub fn read_line(&mut self) -> (line: Option<String>)
        ensures
            text_view(line) == line_text(old(self)@),
            final(self)@ == after_line(old(self)@),
    {
        proof {
            use_type_invariant(&*self);
        }
        let ghost unread = self@;
        let len = self.data.len();
        let start = self.read;
        let mut end: usize = start;
        while end < len && self.data[end] != LINE_FEED
            invariant
                start <= end <= len == self.data.len(),
                forall|i: int| start <= i < end ==> self.data@[i] != LINE_FEED,
            decreases len - end,
        {
            end += 1;
        }
        if end < len {
            end += 1;
        }
        proof {
            lemma_line_length(unread);
            let n = line_length(unread);
            if n < end - start {
                assert(unread[n - 1] == self.data@[start + n - 1]);
            }
            if n > end - start {
                assert(unread[end - start - 1] == self.data@[end - 1]);
                if end - start > 0 && self.data@[end - 1] == LINE_FEED {
                } else {
                    assert(end == len);
                }
            }
            assert(n == end - start);
            assert(unread.take(n) =~= self.data@.subrange(start as int, end as int));
            assert(unread.skip(n) =~= self.data@.skip(end as int));
        }
        let bytes = slice_to_vec(slice_subrange(self.data.as_slice(), start, end));
        self.read = end;
        text_from_utf8(bytes)
    }

    /// Reads exactly `count` bytes.
    ///
    /// Gives nothing where fewer are left; what was left is consumed.
    pub fn read_exact(&mut self, count: usize) -> (bytes: Option<Vec<u8>>)
        ensures
            count <= old(self)@.len() ==> (bytes matches Some(read) && read@ == old(self)@.take(
                count as int,
            )) && final(self)@ == old(self)@.skip(count as int),
            count > old(self)@.len() ==> bytes is None && final(self)@ == Seq::<u8>::empty(),
    {
        proof {
            use_type_invariant(&*self);
        }
        let ghost unread = self@;
        let len = self.data.len();
        let start = self.read;
        if count > len - start {
            self.read = len;
            assert(self@ =~= Seq::<u8>::empty());
            return None;
        }
        let end = start + count;
        let bytes = slice_to_vec(slice_subrange(self.data.as_slice(), start, end));
        self.read = end;
        assert(unread.take(count as int) =~= self.data@.subrange(start as int, end as int));
        assert(unread.skip(count as int) =~= self.data@.skip(end as int));
        Some(bytes)
    }
}

} // verus!
