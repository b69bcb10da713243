//! Reading one request from a stream held in memory: the request line, the
//! header block through its blank line, and the body bytes that the headers
//! announce, in that order and with nothing read ahead.

use crate::body::{body_text, declared_length};
use crate::error::{LinePurpose, ParseError};
use crate::header_block::header_map;
use crate::method::HttpMethodView;
use crate::parser::{blank_line, stripped, ParserView, Progress, ReadEvent, RequestParser, Wanted};
use crate::request::{Request, RequestView};
use crate::start_line::start_line_fields;
use crate::stream::{after_line, lemma_line_length, line_length, line_text, ByteStream};
use vstd::prelude::*;
use vstd::utf8::{decode_utf8, valid_utf8};

verus! {

/// The header lines at the front of `data`, each stripped, together with
/// what follows the blank line that ends them.
///
/// There are none where `data` ends before a blank line came, or where a
/// line is not valid UTF-8; the second component is what is unread at that
/// point.
pub open spec fn header_lines_from(data: Seq<u8>) -> (Option<Seq<Seq<char>>>, Seq<u8>)
    decreases data.len(),
{
    if data.len() == 0 {
        (None, data)
    } else {
        match line_text(data) {
            None => (None, after_line(data)),
            Some(raw) => if raw == blank_line() {
                (Some(Seq::empty()), after_line(data))
            } else {
                proof {
                    lemma_line_length(data);
                }
                let (later, unread) = header_lines_from(after_line(data));
                match later {
                    Some(lines) => (Some(seq![stripped(raw)] + lines), unread),
                    None => (None, unread),
                }
            },
        }
    }
}

/// What reading `length` body bytes from `data` completes the request
/// with: where `data` holds fewer, the read fails and nothing is left.
pub open spec fn request_with_body(
    method: HttpMethodView,
    uri: Seq<char>,
    version: Seq<char>,
    headers: Map<Seq<char>, Seq<char>>,
    length: u32,
    data: Seq<u8>,
) -> (Result<RequestView, ParseError>, Seq<u8>) {
    if length <= data.len() {
        (
            Ok(
                RequestView {
                    method,
                    uri,
                    version,
                    headers,
                    body: body_text(data.take(length as int)),
                },
            ),
            data.skip(length as int),
        )
    } else {
        (Err(ParseError::BodyRead), Seq::empty())
    }
}

/// The request that the header lines `lines` complete, with `data` left
/// after the blank line. Body bytes are taken only where the headers
/// announce a length other than zero.
pub open spec fn request_after_headers(
    method: HttpMethodView,
    uri: Seq<char>,
    version: Seq<char>,
    lines: Seq<Seq<char>>,
    data: Seq<u8>,
) -> (Result<RequestView, ParseError>, Seq<u8>) {
    let headers = header_map(lines);
    let length = declared_length(headers);
    if length == 0 {
        (Ok(RequestView { method, uri, version, headers, body: Seq::empty() }), data)
    } else {
        request_with_body(method, uri, version, headers, length, data)
    }
}

/// The request that a request line already read and the header block at
/// the front of `data` lead to; `lines` are the header lines read before.
pub open spec fn request_after_start_line(
    method: HttpMethodView,
    uri: Seq<char>,
    version: Seq<char>,
    lines: Seq<Seq<char>>,
    data: Seq<u8>,
) -> (Result<RequestView, ParseError>, Seq<u8>) {
    let (later, unread) = header_lines_from(data);
    match later {
        None => (Err(ParseError::LineRead(LinePurpose::HeaderLine)), unread),
        Some(more) => request_after_headers(method, uri, version, lines + more, unread),
    }
}

/// The request at the front of `data`, or the error that reading it ends
/// in, together with what is left unread.
pub open spec fn request_from(data: Seq<u8>) -> (Result<RequestView, ParseError>, Seq<u8>) {
    match line_text(data) {
        None => (Err(ParseError::LineRead(LinePurpose::StartLine)), after_line(data)),
        Some(raw) => match start_line_fields(stripped(raw)) {
            Err(error) => (Err(error), after_line(data)),
            Ok((method, uri, version)) => request_after_start_line(
                method,
                uri,
                version,
                Seq::empty(),
                after_line(data),
            ),
        },
    }
}

/// What a parse in the state `state` ends in when `data` is what is left
/// to read.
pub open spec fn request_continued(state: ParserView, data: Seq<u8>) -> (
    Result<RequestView, ParseError>,
    Seq<u8>,
) {
    match state {
        ParserView::StartLine => request_from(data),
        ParserView::Headers { method, uri, version, lines } => request_after_start_line(
            method,
            uri,
            version,
            lines,
            data,
        ),
        ParserView::Body { method, uri, version, headers, length } => request_with_body(
            method,
            uri,
            version,
            headers,
            length,
            data,
        ),
    }
}

/// A line that is text is empty only where the data is.
pub proof fn lemma_line_text_empty(data: Seq<u8>)
    ensures
        data.len() == 0 ==> line_text(data) == Some(Seq::<char>::empty()),
        data.len() > 0 ==> after_line(data).len() < data.len(),
        data.len() > 0 ==> (line_text(data) matches Some(raw) ==> raw.len() > 0),
{
    lemma_line_length(data);
    let line = data.take(line_length(data));
    if data.len() == 0 {
        assert(valid_utf8(line));
        assert(decode_utf8(line) =~= Seq::<char>::empty());
    } else if valid_utf8(line) {
        assert(line.len() > 0);
        assert(decode_utf8(line).len() > 0);
    }
}

/// The blank line and a line that is no text are told apart from the end
/// of the stream; any other line joins the header lines read before.
proof fn lemma_header_line_step(
    method: HttpMethodView,
    uri: Seq<char>,
    version: Seq<char>,
    lines: Seq<Seq<char>>,
    data: Seq<u8>,
)
    ensures
        match line_text(data) {
            None => request_after_start_line(method, uri, version, lines, data) == (
                Err::<RequestView, ParseError>(ParseError::LineRead(LinePurpose::HeaderLine)),
                after_line(data),
            ),
            Some(raw) => {
                if raw == blank_line() {
                    request_after_start_line(method, uri, version, lines, data)
                        == request_after_headers(method, uri, version, lines, after_line(data))
                } else if raw.len() == 0 {
                    request_after_start_line(method, uri, version, lines, data) == (
                        Err::<RequestView, ParseError>(
                            ParseError::LineRead(LinePurpose::HeaderLine),
                        ),
                        after_line(data),
                    )
                } else {
                    request_after_start_line(method, uri, version, lines, data)
                        == request_after_start_line(
                        method,
                        uri,
                        version,
                        lines.push(stripped(raw)),
                        after_line(data),
                    )
                }
            },
        },
{
    lemma_line_text_empty(data);
    lemma_line_length(data);
    if data.len() == 0 {
        assert(after_line(data) =~= data);
    } else {
        match line_text(data) {
            None => {},
            Some(raw) => {
                if raw == blank_line() {
                    assert(lines + Seq::<Seq<char>>::empty() =~= lines);
                } else {
                    let (later, unread) = header_lines_from(after_line(data));
                    match later {
                        Some(more) => {
                            assert(lines + (seq![stripped(raw)] + more) =~= lines.push(stripped(raw))
                                + more);
                        },
                        None => {},
                    }
                }
            },
        }
    }
}

/// What `outcome` stands for in contracts.
pub open spec fn outcome_view(outcome: Result<Request, ParseError>) -> Result<
    RequestView,
    ParseError,
> {
    match outcome {
        Ok(request) => Ok(request@),
        Err(error) => Err(error),
    }
}

impl Request {
    /// Reads one request from `stream`.
    ///
    /// The stream is left where the request ends; after a failure, where
    /// the failed read left it.
    pub fn from_stream(stream: &mut ByteStream) -> (outcome: Result<Request, ParseError>)
        ensures
            outcome_view(outcome) == request_from(old(stream)@).0,
            final(stream)@ == request_from(old(stream)@).1,
    {
        let mut parser = RequestParser::new();
        loop
            invariant
                request_continued(parser@, stream@) == request_from(old(stream)@),
            decreases stream@.len(),
        {
            let ghost state = parser@;
            let ghost data = stream@;
            proof {
                lemma_line_text_empty(data);
                match state {
                    ParserView::Headers { method, uri, version, lines } => {
                        lemma_header_line_step(method, uri, version, lines, data);
                    },
                    _ => {},
                }
            }
            let event = match parser.wanted() {
                Wanted::Line => match stream.read_line() {
                    Some(raw) => ReadEvent::Line(raw),
                    None => ReadEvent::Failed,
                },
                Wanted::Body(length) => match stream.read_exact(length as usize) {
                    Some(bytes) => ReadEvent::Body(bytes),
                    None => ReadEvent::Failed,
                },
            };
            match parser.feed(event) {
                Progress::Continue(next) => {
                    parser = next;
                },
                Progress::Complete(request) => {
                    return Ok(request);
                },
                Progress::Failed(error) => {
                    return Err(error);
                },
            }
        }
    }
}

} // verus!
