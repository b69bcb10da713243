use http_request::error::{LinePurpose, ParseError};
use http_request::method::HttpMethod;
use http_request::request::Request;
use http_request::stream::ByteStream;

fn parse(input: &[u8]) -> (Result<Request, ParseError>, usize) {
    let mut stream = ByteStream::new(input.to_vec());
    let outcome = Request::from_stream(&mut stream);
    (outcome, stream.remaining())
}

fn header<'a>(request: &'a Request, name: &str) -> Option<&'a str> {
    request.headers().get(name).map(|text| text.as_str())
}

#[test]
fn end_to_end_post_with_body() {
    let (outcome, left) = parse(b"POST /submit HTTP/1.1\r\nContent-Length: 4\r\n\r\nabcd");
    let request = outcome.unwrap();
    assert_eq!(*request.method(), HttpMethod::POST);
    assert_eq!(request.uri(), "/submit");
    assert_eq!(request.version(), "HTTP/1.1");
    assert_eq!(request.headers().len(), 1);
    assert_eq!(header(&request, "Content-Length"), Some("4"));
    assert_eq!(request.body(), "abcd");
    assert_eq!(left, 0);
}

#[test]
fn well_formed_request_keeps_its_literal_values() {
    let (outcome, left) = parse(
        b"PUT /things/7?x=1 HTTP/1.0\r\nHost:  example.org \r\nX-Tag:a:b\r\nContent-Length: 11\r\n\r\nhello world",
    );
    let request = outcome.unwrap();
    assert_eq!(*request.method(), HttpMethod::PUT);
    assert_eq!(request.uri(), "/things/7?x=1");
    assert_eq!(request.version(), "HTTP/1.0");
    assert_eq!(request.headers().len(), 3);
    assert_eq!(header(&request, "Host"), Some("example.org"));
    assert_eq!(header(&request, "X-Tag"), Some("a:b"));
    assert_eq!(header(&request, "Content-Length"), Some("11"));
    assert_eq!(request.body(), "hello world");
    assert_eq!(left, 0);
}

#[test]
fn request_without_headers_or_body() {
    let (outcome, left) = parse(b"GET / HTTP/1.1\r\n\r\n");
    let request = outcome.unwrap();
    assert_eq!(*request.method(), HttpMethod::GET);
    assert_eq!(request.uri(), "/");
    assert_eq!(request.version(), "HTTP/1.1");
    assert!(request.headers().is_empty());
    assert_eq!(request.body(), "");
    assert_eq!(left, 0);
}

#[test]
fn malformed_start_line_fails_the_parse() {
    let (outcome, _) = parse(b"GET /\r\n\r\n");
    assert_eq!(outcome.err(), Some(ParseError::MissingUriOrVersion));
}

#[test]
fn empty_stream_has_no_method() {
    let (outcome, left) = parse(b"");
    assert_eq!(outcome.err(), Some(ParseError::MissingMethod));
    assert_eq!(left, 0);
}

#[test]
fn failed_start_line_leaves_the_rest_unread() {
    let (outcome, left) = parse(b"\r\nGET / HTTP/1.1\r\n\r\n");
    assert_eq!(outcome.err(), Some(ParseError::MissingMethod));
    assert_eq!(left, 18);
}

#[test]
fn unknown_method_token_succeeds_as_other() {
    let (outcome, _) = parse(b"PATCH / HTTP/1.1\r\n\r\n");
    let request = outcome.unwrap();
    assert_eq!(*request.method(), HttpMethod::OTHER("PATCH".to_string()));
}

#[test]
fn garbage_header_line_is_skipped_and_parsing_continues() {
    let (outcome, _) = parse(b"GET / HTTP/1.1\r\ngarbage-line\r\nHost: h\r\n\r\n");
    let request = outcome.unwrap();
    assert_eq!(request.headers().len(), 1);
    assert_eq!(header(&request, "Host"), Some("h"));
}

#[test]
fn duplicate_header_keeps_the_last_value() {
    let (outcome, _) = parse(b"GET / HTTP/1.1\r\nX: 1\r\nX: 2\r\n\r\n");
    let request = outcome.unwrap();
    assert_eq!(request.headers().len(), 1);
    assert_eq!(header(&request, "X"), Some("2"));
}

#[test]
fn short_body_is_a_body_read_error() {
    let (outcome, left) = parse(b"POST / HTTP/1.1\r\nContent-Length: 5\r\n\r\nabc");
    assert_eq!(outcome.err(), Some(ParseError::BodyRead));
    assert_eq!(left, 0);
}

#[test]
fn absent_content_length_reads_no_body_bytes() {
    let (outcome, left) = parse(b"GET / HTTP/1.1\r\nHost: h\r\n\r\nleft over");
    let request = outcome.unwrap();
    assert_eq!(request.body(), "");
    assert_eq!(left, 9);
}

#[test]
fn reads_after_the_request_start_behind_the_header_terminator() {
    let mut stream = ByteStream::new(b"GET / HTTP/1.1\r\n\r\nnext line\nrest".to_vec());
    let request = Request::from_stream(&mut stream).unwrap();
    assert_eq!(request.body(), "");
    assert_eq!(stream.read_line(), Some("next line\n".to_string()));
    assert_eq!(stream.read_exact(4), Some(b"rest".to_vec()));
    assert_eq!(stream.remaining(), 0);
}

#[test]
fn zero_content_length_reads_no_body_bytes() {
    let (outcome, left) = parse(b"POST / HTTP/1.1\r\nContent-Length: 0\r\n\r\nabc");
    let request = outcome.unwrap();
    assert_eq!(request.body(), "");
    assert_eq!(header(&request, "Content-Length"), Some("0"));
    assert_eq!(left, 3);
}

#[test]
fn unparseable_content_length_reads_no_body_bytes() {
    let (outcome, left) = parse(b"POST / HTTP/1.1\r\nContent-Length: four\r\n\r\nabcd");
    let request = outcome.unwrap();
    assert_eq!(request.body(), "");
    assert_eq!(left, 4);
}

#[test]
fn lowercase_content_length_is_not_looked_up() {
    let (outcome, left) = parse(b"POST / HTTP/1.1\r\ncontent-length: 4\r\n\r\nabcd");
    let request = outcome.unwrap();
    assert_eq!(request.body(), "");
    assert_eq!(header(&request, "content-length"), Some("4"));
    assert_eq!(left, 4);
}

#[test]
fn body_takes_exactly_the_announced_bytes() {
    let (outcome, left) = parse(b"POST / HTTP/1.1\r\nContent-Length: 3\r\n\r\nabcdef");
    let request = outcome.unwrap();
    assert_eq!(request.body(), "abc");
    assert_eq!(left, 3);
}

#[test]
fn body_may_hold_line_breaks() {
    let (outcome, _) = parse(b"POST / HTTP/1.1\r\nContent-Length: 6\r\n\r\na\r\n\r\nb");
    assert_eq!(outcome.unwrap().body(), "a\r\n\r\nb");
}

#[test]
fn invalid_utf8_in_the_body_is_replaced() {
    let (outcome, left) = parse(b"POST / HTTP/1.1\r\nContent-Length: 3\r\n\r\na\xffb");
    let request = outcome.unwrap();
    assert_eq!(request.body(), "a\u{fffd}b");
    assert_eq!(left, 0);
}

#[test]
fn multibyte_body_is_counted_in_bytes() {
    let (outcome, left) =
        parse("POST / HTTP/1.1\r\nContent-Length: 5\r\n\r\n\u{e9}t\u{e9}!".as_bytes());
    let request = outcome.unwrap();
    assert_eq!(request.body(), "\u{e9}t\u{e9}");
    assert_eq!(left, 1);
}

#[test]
fn stream_ending_inside_the_header_block_is_an_error() {
    let (outcome, left) = parse(b"GET / HTTP/1.1\r\nHost: h\r\n");
    assert_eq!(outcome.err(), Some(ParseError::LineRead(LinePurpose::HeaderLine)));
    assert_eq!(left, 0);
}

#[test]
fn stream_ending_after_the_start_line_is_an_error() {
    let (outcome, _) = parse(b"GET / HTTP/1.1\r\n");
    assert_eq!(outcome.err(), Some(ParseError::LineRead(LinePurpose::HeaderLine)));
}

#[test]
fn bare_line_feed_does_not_end_the_header_block() {
    let (outcome, _) = parse(b"GET / HTTP/1.1\r\nHost: h\n\nX: 1\r\n\r\n");
    let request = outcome.unwrap();
    assert_eq!(request.headers().len(), 2);
    assert_eq!(header(&request, "Host"), Some("h"));
    assert_eq!(header(&request, "X"), Some("1"));
}

#[test]
fn start_line_that_is_not_text_is_a_line_read_error() {
    let (outcome, left) = parse(b"GET /\xff HTTP/1.1\r\n\r\n");
    assert_eq!(outcome.err(), Some(ParseError::LineRead(LinePurpose::StartLine)));
    assert_eq!(left, 2);
}

#[test]
fn header_line_that_is_not_text_is_a_line_read_error() {
    let (outcome, left) = parse(b"GET / HTTP/1.1\r\nHost: \xc3\x28\r\n\r\n");
    assert_eq!(outcome.err(), Some(ParseError::LineRead(LinePurpose::HeaderLine)));
    assert_eq!(left, 2);
}

#[test]
fn header_values_in_utf8_are_kept() {
    let (outcome, _) = parse("GET /caf\u{e9} HTTP/1.1\r\nX-Name: Zo\u{eb}\r\n\r\n".as_bytes());
    let request = outcome.unwrap();
    assert_eq!(request.uri(), "/caf\u{e9}");
    assert_eq!(header(&request, "X-Name"), Some("Zo\u{eb}"));
}

#[test]
fn padded_headers_parse_like_trimmed_ones() {
    let (padded, _) = parse(b"GET / HTTP/1.1\r\n  Host  :   h  \r\n\r\n");
    let (plain, _) = parse(b"GET / HTTP/1.1\r\nHost:h\r\n\r\n");
    assert_eq!(padded.unwrap().headers().entries(), plain.unwrap().headers().entries());
}

#[test]
fn stream_reads_lines_and_counts() {
    let mut stream = ByteStream::new(b"one\r\ntwo\nlast".to_vec());
    assert_eq!(stream.remaining(), 13);
    assert_eq!(stream.read_line(), Some("one\r\n".to_string()));
    assert_eq!(stream.read_line(), Some("two\n".to_string()));
    assert_eq!(stream.read_line(), Some("last".to_string()));
    assert_eq!(stream.read_line(), Some(String::new()));
    assert_eq!(stream.remaining(), 0);
}

#[test]
fn stream_read_exact_fails_when_short() {
    let mut stream = ByteStream::new(b"abc".to_vec());
    assert_eq!(stream.read_exact(2), Some(b"ab".to_vec()));
    assert_eq!(stream.read_exact(2), None);
    assert_eq!(stream.remaining(), 0);
    assert_eq!(stream.read_exact(0), Some(Vec::new()));
}

#[test]
fn start_line_with_spaces_before_its_terminator_parses() {
    let (outcome, left) = parse(b"GET / HTTP/1.1  \r\nHost: h \t\r\n\r\n");
    let request = outcome.unwrap();
    assert_eq!(*request.method(), HttpMethod::GET);
    assert_eq!(request.uri(), "/");
    assert_eq!(request.version(), "HTTP/1.1");
    assert_eq!(header(&request, "Host"), Some("h"));
    assert_eq!(left, 0);
}
