use http_request::error::{LinePurpose, ParseError};
use http_request::headers::HeaderMap;
use http_request::method::HttpMethod;
use http_request::parser::{
    strip_terminator, Progress, ReadEvent, RequestParser, Wanted, READ_TIMEOUT_SECONDS,
};
use http_request::request::Request;

fn line(text: &str) -> ReadEvent {
    ReadEvent::Line(text.to_string())
}

fn go_on(progress: Progress) -> RequestParser {
    match progress {
        Progress::Continue(parser) => parser,
        Progress::Complete(_) => panic!("complete too early"),
        Progress::Failed(error) => panic!("failed: {:?}", error),
    }
}

fn complete(progress: Progress) -> Request {
    match progress {
        Progress::Complete(request) => request,
        Progress::Continue(_) => panic!("not complete"),
        Progress::Failed(error) => panic!("failed: {:?}", error),
    }
}

fn failure(progress: Progress) -> ParseError {
    match progress {
        Progress::Failed(error) => error,
        _ => panic!("did not fail"),
    }
}

#[test]
fn parser_walks_through_the_stages_in_order() {
    let parser = RequestParser::new();
    assert_eq!(parser.wanted(), Wanted::Line);
    let parser = go_on(parser.feed(line("POST /submit HTTP/1.1\r\n")));
    assert_eq!(parser.wanted(), Wanted::Line);
    let parser = go_on(parser.feed(line("Content-Length: 4\r\n")));
    assert_eq!(parser.wanted(), Wanted::Line);
    let parser = go_on(parser.feed(line("\r\n")));
    assert_eq!(parser.wanted(), Wanted::Body(4));
    let request = complete(parser.feed(ReadEvent::Body(b"abcd".to_vec())));
    assert_eq!(*request.method(), HttpMethod::POST);
    assert_eq!(request.uri(), "/submit");
    assert_eq!(request.version(), "HTTP/1.1");
    assert_eq!(request.headers().get("Content-Length").map(|v| v.as_str()), Some("4"));
    assert_eq!(request.body(), "abcd");
}

#[test]
fn parser_completes_at_the_blank_line_without_a_length() {
    let parser = go_on(RequestParser::new().feed(line("GET / HTTP/1.1\r\n")));
    let request = complete(parser.feed(line("\r\n")));
    assert_eq!(request.body(), "");
    assert!(request.headers().is_empty());
}

#[test]
fn failed_start_line_read_names_its_purpose() {
    let error = failure(RequestParser::new().feed(ReadEvent::Failed));
    assert_eq!(error, ParseError::LineRead(LinePurpose::StartLine));
}

#[test]
fn failed_header_line_read_names_its_purpose() {
    let parser = go_on(RequestParser::new().feed(line("GET / HTTP/1.1\r\n")));
    let error = failure(parser.feed(ReadEvent::Failed));
    assert_eq!(error, ParseError::LineRead(LinePurpose::HeaderLine));
}

#[test]
fn end_of_stream_in_the_header_block_fails() {
    let parser = go_on(RequestParser::new().feed(line("GET / HTTP/1.1\r\n")));
    let parser = go_on(parser.feed(line("Host: h\r\n")));
    let error = failure(parser.feed(line("")));
    assert_eq!(error, ParseError::LineRead(LinePurpose::HeaderLine));
}

#[test]
fn failed_body_read_is_a_body_error() {
    let parser = go_on(RequestParser::new().feed(line("POST / HTTP/1.1\r\n")));
    let parser = go_on(parser.feed(line("Content-Length: 5\r\n")));
    let parser = go_on(parser.feed(line("\r\n")));
    assert_eq!(parser.wanted(), Wanted::Body(5));
    assert_eq!(failure(parser.feed(ReadEvent::Failed)), ParseError::BodyRead);
}

#[test]
fn body_of_the_wrong_length_is_a_body_error() {
    let parser = go_on(RequestParser::new().feed(line("POST / HTTP/1.1\r\n")));
    let parser = go_on(parser.feed(line("Content-Length: 5\r\n")));
    let parser = go_on(parser.feed(line("\r\n")));
    assert_eq!(failure(parser.feed(ReadEvent::Body(b"abc".to_vec()))), ParseError::BodyRead);
}

#[test]
fn event_of_the_wrong_kind_fails_the_pending_read() {
    let error = failure(RequestParser::new().feed(ReadEvent::Body(Vec::new())));
    assert_eq!(error, ParseError::LineRead(LinePurpose::StartLine));
    let parser = go_on(RequestParser::new().feed(line("POST / HTTP/1.1\r\n")));
    let parser = go_on(parser.feed(line("Content-Length: 1\r\n")));
    let parser = go_on(parser.feed(line("\r\n")));
    assert_eq!(failure(parser.feed(line("x"))), ParseError::BodyRead);
}

#[test]
fn malformed_start_line_ends_the_parse() {
    assert_eq!(failure(RequestParser::new().feed(line("GET /\r\n"))), ParseError::MissingUriOrVersion);
    assert_eq!(failure(RequestParser::new().feed(line("\r\n"))), ParseError::MissingMethod);
    assert_eq!(failure(RequestParser::new().feed(line(""))), ParseError::MissingMethod);
}

#[test]
fn header_lines_are_stripped_of_their_terminator() {
    let parser = go_on(RequestParser::new().feed(line("GET / HTTP/1.1\r\n")));
    let parser = go_on(parser.feed(line("no-colon\r\n")));
    let parser = go_on(parser.feed(line("Key: value \t\r\n")));
    let parser = go_on(parser.feed(line("\n")));
    let request = complete(parser.feed(line("\r\n")));
    assert_eq!(request.headers().len(), 1);
    assert_eq!(request.headers().get("Key").map(|v| v.as_str()), Some("value"));
}

#[test]
fn invalid_body_bytes_are_decoded_lossily() {
    let parser = go_on(RequestParser::new().feed(line("POST / HTTP/1.1\r\n")));
    let parser = go_on(parser.feed(line("Content-Length: 2\r\n")));
    let parser = go_on(parser.feed(line("\r\n")));
    let request = complete(parser.feed(ReadEvent::Body(vec![0xC3, 0x28])));
    assert_eq!(request.body(), "\u{fffd}(");
}

#[test]
fn request_new_keeps_its_parts() {
    let mut headers = HeaderMap::new();
    headers.insert("Host".to_string(), "h".to_string());
    let request = Request::new(
        HttpMethod::OTHER("BREW".to_string()),
        "/pot".to_string(),
        "HTCPCP/1.0".to_string(),
        headers,
        "milk".to_string(),
    );
    assert_eq!(*request.method(), HttpMethod::OTHER("BREW".to_string()));
    assert_eq!(request.uri(), "/pot");
    assert_eq!(request.version(), "HTCPCP/1.0");
    assert_eq!(request.headers().get("Host").map(|v| v.as_str()), Some("h"));
    assert_eq!(request.body(), "milk");
}

#[test]
fn each_error_has_its_message() {
    assert_eq!(ParseError::LineRead(LinePurpose::StartLine).message(), "Error reading start line");
    assert_eq!(ParseError::LineRead(LinePurpose::HeaderLine).message(), "Error reading header line");
    assert_eq!(ParseError::MissingMethod.message(), "HTTP Method not found");
    assert_eq!(ParseError::MissingUriOrVersion.message(), "HTTP URI or version not found");
    assert_eq!(ParseError::BodyRead.message(), "Error reading body");
}

#[test]
fn only_token_errors_are_malformed_start_lines() {
    assert!(ParseError::MissingMethod.malformed_start_line());
    assert!(ParseError::MissingUriOrVersion.malformed_start_line());
    assert!(!ParseError::LineRead(LinePurpose::StartLine).malformed_start_line());
    assert!(!ParseError::LineRead(LinePurpose::HeaderLine).malformed_start_line());
    assert!(!ParseError::BodyRead.malformed_start_line());
}

#[test]
fn read_timeout_is_five_seconds() {
    assert_eq!(READ_TIMEOUT_SECONDS, 5);
}

#[test]
fn failed_read_messages_name_their_cause() {
    assert_eq!(
        ParseError::LineRead(LinePurpose::StartLine).message_with_cause("timed out"),
        "Error reading start line timed out"
    );
    assert_eq!(
        ParseError::LineRead(LinePurpose::HeaderLine).message_with_cause("timed out"),
        "Error reading header line, timed out"
    );
    assert_eq!(
        ParseError::BodyRead.message_with_cause("failed to fill whole buffer"),
        "Error reading body, failed to fill whole buffer"
    );
    assert_eq!(ParseError::BodyRead.message_with_cause(""), "Error reading body, ");
}

#[test]
fn only_the_terminator_is_stripped() {
    assert_eq!(strip_terminator("GET / HTTP/1.1  \r\n"), "GET / HTTP/1.1  ");
    assert_eq!(strip_terminator("X: 1  \r\n"), "X: 1  ");
    assert_eq!(strip_terminator("Host: h\r\n"), "Host: h");
    assert_eq!(strip_terminator("\r\n"), "");
    assert_eq!(strip_terminator("a\r\n\r\n"), "a\r\n");
    assert_eq!(strip_terminator("caf\u{e9} \u{1f600}\r\n"), "caf\u{e9} \u{1f600}");
}

#[test]
fn line_without_the_terminator_stays_whole() {
    assert_eq!(strip_terminator(""), "");
    assert_eq!(strip_terminator("\n"), "\n");
    assert_eq!(strip_terminator("\r"), "\r");
    assert_eq!(strip_terminator("abc\n"), "abc\n");
    assert_eq!(strip_terminator("abc\r"), "abc\r");
    assert_eq!(strip_terminator("abc\n\r"), "abc\n\r");
    assert_eq!(strip_terminator("no end"), "no end");
    assert_eq!(strip_terminator("\r\n "), "\r\n ");
}

#[test]
fn whitespace_before_the_terminator_does_not_change_the_request() {
    let parser = go_on(RequestParser::new().feed(line("GET / HTTP/1.1  \r\n")));
    let parser = go_on(parser.feed(line("X: 1  \r\n")));
    let request = complete(parser.feed(line("\r\n")));
    assert_eq!(*request.method(), HttpMethod::GET);
    assert_eq!(request.uri(), "/");
    assert_eq!(request.version(), "HTTP/1.1");
    assert_eq!(request.headers().len(), 1);
    assert_eq!(request.headers().get("X").map(|v| v.as_str()), Some("1"));
}
