use http_request::error::ParseError;
use http_request::method::HttpMethod;
use http_request::start_line::parse_start_line;

fn fields(line: &str) -> Result<(HttpMethod, String, String), ParseError> {
    parse_start_line(&line.to_string())
}

#[test]
fn three_tokens_give_method_uri_and_version() {
    let (method, uri, version) = fields("GET /index.html HTTP/1.1").unwrap();
    assert_eq!(method, HttpMethod::GET);
    assert_eq!(uri, "/index.html");
    assert_eq!(version, "HTTP/1.1");
}

#[test]
fn each_known_verb_resolves_to_its_variant() {
    let verbs = [
        ("GET", HttpMethod::GET),
        ("HEAD", HttpMethod::HEAD),
        ("POST", HttpMethod::POST),
        ("PUT", HttpMethod::PUT),
        ("DELETE", HttpMethod::DELETE),
        ("CONNECT", HttpMethod::CONNECT),
        ("OPTIONS", HttpMethod::OPTIONS),
        ("TRACE", HttpMethod::TRACE),
    ];
    for (token, expected) in verbs {
        let (method, _, _) = fields(&format!("{} / HTTP/1.1", token)).unwrap();
        assert_eq!(method, expected);
        assert_eq!(HttpMethod::from_token(token), expected);
    }
}

#[test]
fn two_tokens_are_a_malformed_start_line() {
    assert_eq!(fields("GET /"), Err(ParseError::MissingUriOrVersion));
}

#[test]
fn one_token_lacks_uri_and_version() {
    assert_eq!(fields("GET"), Err(ParseError::MissingUriOrVersion));
}

#[test]
fn empty_line_lacks_the_method() {
    assert_eq!(fields(""), Err(ParseError::MissingMethod));
}

#[test]
fn whitespace_only_line_lacks_the_method() {
    assert_eq!(fields(" \t \u{a0} "), Err(ParseError::MissingMethod));
}

#[test]
fn unknown_method_token_is_kept_as_other() {
    let (method, uri, version) = fields("PATCH / HTTP/1.1").unwrap();
    assert_eq!(method, HttpMethod::OTHER("PATCH".to_string()));
    assert_eq!(uri, "/");
    assert_eq!(version, "HTTP/1.1");
}

#[test]
fn lowercase_verb_is_not_a_known_method() {
    let (method, _, _) = fields("get / HTTP/1.1").unwrap();
    assert_eq!(method, HttpMethod::OTHER("get".to_string()));
}

#[test]
fn verb_with_a_suffix_is_not_a_known_method() {
    assert_eq!(HttpMethod::from_token("GETS"), HttpMethod::OTHER("GETS".to_string()));
    assert_eq!(HttpMethod::from_token("GE"), HttpMethod::OTHER("GE".to_string()));
    assert_eq!(HttpMethod::from_token(""), HttpMethod::OTHER(String::new()));
}

#[test]
fn tokens_after_the_third_are_ignored() {
    let (method, uri, version) = fields("POST /a HTTP/1.0 extra words").unwrap();
    assert_eq!(method, HttpMethod::POST);
    assert_eq!(uri, "/a");
    assert_eq!(version, "HTTP/1.0");
}

#[test]
fn runs_of_whitespace_separate_tokens() {
    let (method, uri, version) = fields("  PUT \t /x\u{2003}\u{3000}HTTP/1.1  ").unwrap();
    assert_eq!(method, HttpMethod::PUT);
    assert_eq!(uri, "/x");
    assert_eq!(version, "HTTP/1.1");
}

#[test]
fn uri_and_version_are_stored_verbatim() {
    let (_, uri, version) = fields("GET /a%20b?q=\u{e9}#frag nonsense/9").unwrap();
    assert_eq!(uri, "/a%20b?q=\u{e9}#frag");
    assert_eq!(version, "nonsense/9");
}

#[test]
fn start_line_agrees_with_split_whitespace() {
    let lines = [
        "GET / HTTP/1.1",
        "\u{85}a\u{1680}b\u{2028}c\u{2029}d",
        "a\u{200b}b c d",
        "x\u{202f}y\u{205f}z",
        "\u{feff}a b c",
        "a\u{b}b\u{c}c",
        "one two",
    ];
    for line in lines {
        let expected: Vec<&str> = line.split_whitespace().collect();
        match fields(line) {
            Ok((_, uri, version)) => {
                assert!(expected.len() >= 3);
                assert_eq!(uri, expected[1]);
                assert_eq!(version, expected[2]);
            }
            Err(_) => assert!(expected.len() < 3),
        }
    }
}
