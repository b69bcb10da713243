//! The ways in which reading one request can fail.

use vstd::prelude::*;
use vstd::string::StringExecFns;

verus! {

/// What a line was being read for when the read failed.
#[derive(Clone, Copy, Debug, PartialEq, Eq, Structural)]
pub enum LinePurpose {
    /// The request line, the first line of the exchange.
    StartLine,
    /// A line of the header block, its terminator included.
    HeaderLine,
}

/// Why no request came out of a parse.
///
/// Every failure ends the parse of the current request; nothing is retried.
#[derive(Clone, Copy, Debug, PartialEq, Eq, Structural)]
pub enum ParseError {
    /// The stream gave no line where one was due.
    LineRead(LinePurpose),
    /// The request line holds no token at all.
    MissingMethod,
    /// The request line holds a method, but no URI or no version after it.
    MissingUriOrVersion,
    /// The stream gave fewer body bytes than `Content-Length` announced.
    BodyRead,
}

/// The text that describes `error`.
pub open spec fn message_of(error: ParseError) -> Seq<char> {
    match error {
        ParseError::LineRead(LinePurpose::StartLine) => "Error reading start line"@,
        ParseError::LineRead(LinePurpose::HeaderLine) => "Error reading header line"@,
        ParseError::MissingMethod => "HTTP Method not found"@,
        ParseError::MissingUriOrVersion => "HTTP URI or version not found"@,
        ParseError::BodyRead => "Error reading body"@,
    }
}

/// What stands between the description of `error` and the cause of the
/// read that failed: a space behind a failed read of the request line, a
/// comma and a space behind any other.
pub open spec fn cause_separator(error: ParseError) -> Seq<char> {
    match error {
        ParseError::LineRead(LinePurpose::StartLine) => " "@,
        _ => ", "@,
    }
}

impl ParseError {
    /// Whether the failure is a request line with fewer than three tokens.
    pub open spec fn is_malformed_start_line(self) -> bool {
        self == ParseError::MissingMethod || self == ParseError::MissingUriOrVersion
    }

    /// Whether the request line was malformed: it held fewer than three
    /// tokens.
    pub fn malformed_start_line(&self) -> (malformed: bool)
        ensures
            malformed == self.is_malformed_start_line(),
    {
        match self {
            ParseError::MissingMethod => true,
            ParseError::MissingUriOrVersion => true,
            _ => false,
        }
    }

    /// A short description for a diagnostic.
    pub fn message(&self) -> (text: String)
        ensures
            text@ == message_of(*self),
    {
        match self {
            ParseError::LineRead(LinePurpose::StartLine) => "Error reading start line".to_owned(),
            ParseError::LineRead(LinePurpose::HeaderLine) => "Error reading header line".to_owned(),
            ParseError::MissingMethod => "HTTP Method not found".to_owned(),
            ParseError::MissingUriOrVersion => "HTTP URI or version not found".to_owned(),
            ParseError::BodyRead => "Error reading body".to_owned(),
        }
    }

    /// The description followed by the cause of the read that failed.
    pub fn message_with_cause(&self, cause: &str) -> (text: String)
        ensures
            text@ == message_of(*self) + cause_separator(*self) + cause@,
    {
        let separator = match self {
            ParseError::LineRead(LinePurpose::StartLine) => " ",
            _ => ", ",
        };
        self.message().concat(separator).concat(cause)
    }
}

} // verus!
