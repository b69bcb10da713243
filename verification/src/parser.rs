//! The order of a parse, free of any I/O: which read is due next, and what
//! each thing read leads to.
//!
//! A caller that owns a connection asks the parser what it wants, performs
//! that read, and feeds the parser what came back, until the parser hands
//! out a request or an error.

use crate::body::{body_text, content_length, declared_length, decode_body};
use crate::error::{LinePurpose, ParseError};
use crate::header_block::{header_map, parse_header_lines};
use crate::headers::HeaderMap;
use crate::method::{HttpMethod, HttpMethodView};
use crate::request::{Request, RequestView};
use crate::start_line::{parse_start_line, start_line_fields};
use crate::text::{chars_of, same_text, slice_text, texts_of};
use vstd::prelude::*;

verus! {

/// The seconds that any one read of a connection may wait for bytes. The
/// caller arms this timeout once, before the first read; it is not renewed
/// from stage to stage.
pub const READ_TIMEOUT_SECONDS: u64 = 5;

/// The read that a parser is waiting for.
#[derive(Clone, Copy, Debug, PartialEq, Eq, Structural)]
pub enum Wanted {
    /// One line, through its line feed.
    Line,
    /// Exactly this many bytes.
    Body(u32),
}

/// What a read gave.
#[derive(Debug)]
pub enum ReadEvent {
    /// A line, terminator included; the empty text at the end of the stream.
    Line(String),
    /// Body bytes.
    Body(Vec<u8>),
    /// The read failed.
    Failed,
}

/// What a [`ReadEvent`] stands for in contracts.
pub enum ReadEventView {
    Line(Seq<char>),
    Body(Seq<u8>),
    Failed,
}

impl View for ReadEvent {
    type V = ReadEventView;

    open spec fn view(&self) -> ReadEventView {
        match self {
            ReadEvent::Line(raw) => ReadEventView::Line(raw@),
            ReadEvent::Body(bytes) => ReadEventView::Body(bytes@),
            ReadEvent::Failed => ReadEventView::Failed,
        }
    }
}

/// How far a parse has come.
pub enum ParserView {
    /// Nothing was read yet: the request line is due.
    StartLine,
    /// The request line was read; `lines` are the header lines read since.
    Headers { method: HttpMethodView, uri: Seq<char>, version: Seq<char>, lines: Seq<Seq<char>> },
    /// The header block was read and announced `length` body bytes.
    Body {
        method: HttpMethodView,
        uri: Seq<char>,
        version: Seq<char>,
        headers: Map<Seq<char>, Seq<char>>,
        length: u32,
    },
}

impl ParserView {
    /// The read that is due in this state.
    pub open spec fn wanted(self) -> Wanted {
        match self {
            ParserView::Body { length, .. } => Wanted::Body(length),
            _ => Wanted::Line,
        }
    }
}

/// Where one step of a parse leads.
pub enum ProgressView {
    Continue(ParserView),
    Complete(RequestView),
    Failed(ParseError),
}

/// The line that ends the header block: a bare carriage return, line feed.
pub open spec fn blank_line() -> Seq<char> {
    seq!['\r', '\n']
}

/// Whether `raw` ends with the line terminator: a carriage return and,
/// behind it, a line feed.
pub open spec fn ends_with_terminator(raw: Seq<char>) -> bool {
    raw.len() >= 2 && raw[raw.len() - 2] == '\r' && raw[raw.len() - 1] == '\n'
}

/// A line as the parsers take it: without its terminator, and otherwise as
/// it was read. Whitespace in front of the terminator stays, and a line
/// that does not end with the terminator stays whole.
pub open spec fn stripped(raw: Seq<char>) -> Seq<char> {
    if ends_with_terminator(raw) {
        raw.take(raw.len() - 2)
    } else {
        raw
    }
}

/// Where the request line `raw` leads.
pub open spec fn after_start_line(raw: Seq<char>) -> ProgressView {
    match start_line_fields(stripped(raw)) {
        Ok((method, uri, version)) => ProgressView::Continue(
            ParserView::Headers { method, uri, version, lines: Seq::empty() },
        ),
        Err(error) => ProgressView::Failed(error),
    }
}

/// Where the line `raw` leads in the header block. The blank line ends the
/// block: without announced body bytes the request is complete, its body
/// empty. The empty line is the end of the stream, which is a failure. Any
/// other line joins the header lines.
pub open spec fn after_header_line(
    method: HttpMethodView,
    uri: Seq<char>,
    version: Seq<char>,
    lines: Seq<Seq<char>>,
    raw: Seq<char>,
) -> ProgressView {
    if raw == blank_line() {
        let headers = header_map(lines);
        let length = declared_length(headers);
        if length == 0 {
            ProgressView::Complete(
                RequestView { method, uri, version, headers, body: Seq::empty() },
            )
        } else {
            ProgressView::Continue(ParserView::Body { method, uri, version, headers, length })
        }
    } else if raw.len() == 0 {
        ProgressView::Failed(ParseError::LineRead(LinePurpose::HeaderLine))
    } else {
        ProgressView::Continue(
            ParserView::Headers { method, uri, version, lines: lines.push(stripped(raw)) },
        )
    }
}

/// Where the body bytes lead: to the request, if they are as many as were
/// announced.
pub open spec fn after_body(
    method: HttpMethodView,
    uri: Seq<char>,
    version: Seq<char>,
    headers: Map<Seq<char>, Seq<char>>,
    length: u32,
    bytes: Seq<u8>,
) -> ProgressView {
    if bytes.len() == length {
        ProgressView::Complete(
            RequestView { method, uri, version, headers, body: body_text(bytes) },
        )
    } else {
        ProgressView::Failed(ParseError::BodyRead)
    }
}

/// Where `event` leads from `state`. An event other than the read that was
/// due counts as the failure of that read.
pub open spec fn step(state: ParserView, event: ReadEventView) -> ProgressView {
    match state {
        ParserView::StartLine => match event {
            ReadEventView::Line(raw) => after_start_line(raw),
            _ => ProgressView::Failed(ParseError::LineRead(LinePurpose::StartLine)),
        },
        ParserView::Headers { method, uri, version, lines } => match event {
            ReadEventView::Line(raw) => after_header_line(method, uri, version, lines, raw),
            _ => ProgressView::Failed(ParseError::LineRead(LinePurpose::HeaderLine)),
        },
        ParserView::Body { method, uri, version, headers, length } => match event {
            ReadEventView::Body(bytes) => after_body(method, uri, version, headers, length, bytes),
            _ => ProgressView::Failed(ParseError::BodyRead),
        },
    }
}

/// Where feeding `events` in order leads from `state`: to the first
/// outcome that ends the parse, or to the state after the last event.
pub open spec fn run(state: ParserView, events: Seq<ReadEventView>) -> ProgressView
    decreases events.len(),
{
    if events.len() == 0 {
        ProgressView::Continue(state)
    } else {
        match step(state, events.first()) {
            ProgressView::Continue(next) => run(next, events.drop_first()),
            ended => ended,
        }
    }
}

#[derive(Debug)]
enum Phase {
    StartLine,
    Headers { method: HttpMethod, uri: String, version: String, lines: Vec<String> },
    Body { method: HttpMethod, uri: String, version: String, headers: HeaderMap, length: u32 },
}

/// A parse in progress.
#[derive(Debug)]
pub struct RequestParser {
    phase: Phase,
}

impl View for RequestParser {
    type V = ParserView;

    closed spec fn view(&self) -> ParserView {
        match self.phase {
            Phase::StartLine => ParserView::StartLine,
            Phase::Headers { method, uri, version, lines } => ParserView::Headers {
                method: method@,
                uri: uri@,
                version: version@,
                lines: texts_of(lines@),
            },
            Phase::Body { method, uri, version, headers, length } => ParserView::Body {
                method: method@,
                uri: uri@,
                version: version@,
                headers: headers@,
                length,
            },
        }
    }
}

/// Takes the terminator off a line that was read.
pub fn strip_terminator(raw: &str) -> (line: String)
    ensures
        line@ == stripped(raw@),
{
    let chars = chars_of(raw);
    let len = chars.len();
    if len >= 2 && chars[len - 2] == '\r' && chars[len - 1] == '\n' {
        assert(raw@.subrange(0, len - 2) =~= raw@.take(len - 2));
        slice_text(raw, 0, len - 2)
    } else {
        raw.to_owned()
    }
}

/// The outcome of feeding a parser: the parser to go on with, the finished
/// request, or the error that ended the parse.
#[derive(Debug)]
pub enum Progress {
    Continue(RequestParser),
    Complete(Request),
    Failed(ParseError),
}

impl View for Progress {
    type V = ProgressView;

    open spec fn view(&self) -> ProgressView {
        match self {
            Progress::Continue(parser) => ProgressView::Continue(parser@),
            Progress::Complete(request) => ProgressView::Complete(request@),
            Progress::Failed(error) => ProgressView::Failed(*error),
        }
    }
}

impl RequestParser {
    /// A parser that has read nothing yet.
    pub fn new() -> (parser: RequestParser)
        ensures
            parser@ == ParserView::StartLine,
    {
        RequestParser { phase: Phase::StartLine }
    }

    /// The read to perform next.
    pub fn wanted(&self) -> (read: Wanted)
        ensures
            read == self@.wanted(),
    {
        match &self.phase {
            Phase::Body { length, .. } => Wanted::Body(*length),
            _ => Wanted::Line,
        }
    }

    /// Takes what the read gave and moves on.
    pub fn feed(self, event: ReadEvent) -> (progress: Progress)
        ensures
            progress@ == step(self@, event@),
    {
        match self.phase {
            Phase::StartLine => match event {
                ReadEvent::Line(raw) => {
                    let line = strip_terminator(raw.as_str());
                    match parse_start_line(&line) {
                        Ok((method, uri, version)) => {
                            let lines: Vec<String> = Vec::new();
                            assert(texts_of(lines@) =~= Seq::<Seq<char>>::empty());
                            Progress::Continue(
                                RequestParser { phase: Phase::Headers { method, uri, version, lines } },
                            )
                        },
                        Err(error) => Progress::Failed(error),
                    }
                },
                _ => Progress::Failed(ParseError::LineRead(LinePurpose::StartLine)),
            },
            Phase::Headers { method, uri, version, lines } => match event {
                ReadEvent::Line(raw) => {
                    proof {
                        reveal_strlit("\r\n");
                        assert("\r\n"@ =~= blank_line());
                    }
                    if same_text(raw.as_str(), "\r\n") {
                        match parse_header_lines(&lines) {
                            Ok(headers) => {
                                let length = content_length(&headers);
                                if length == 0 {
                                    Progress::Complete(
                                        Request::new(method, uri, version, headers, String::new()),
                                    )
                                } else {
                                    Progress::Continue(
                                        RequestParser {
                                            phase: Phase::Body { method, uri, version, headers, length },
                                        },
                                    )
                                }
                            },
                            Err(error) => Progress::Failed(error),
                        }
                    } else if raw.as_str().is_empty() {
                        Progress::Failed(ParseError::LineRead(LinePurpose::HeaderLine))
                    } else {
                        let mut lines = lines;
                        let ghost before = texts_of(lines@);
                        let line = strip_terminator(raw.as_str());
                        lines.push(line);
                        assert(texts_of(lines@) =~= before.push(stripped(raw@)));
                        Progress::Continue(
                            RequestParser { phase: Phase::Headers { method, uri, version, lines } },
                        )
                    }
                },
                _ => Progress::Failed(ParseError::LineRead(LinePurpose::HeaderLine)),
            },
            Phase::Body { method, uri, version, headers, length } => match event {
                ReadEvent::Body(bytes) => {
                    if bytes.len() == length as usize {
                        let body = decode_body(&bytes);
                        Progress::Complete(Request::new(method, uri, version, headers, body))
                    } else {
                        Progress::Failed(ParseError::BodyRead)
                    }
                },
                _ => Progress::Failed(ParseError::BodyRead),
            },
        }
    }
}

} // verus!
