use http_request::body::{content_length, decode_body};
use http_request::header_block::{parse_header_lines, split_header_line};
use http_request::headers::HeaderMap;

fn lines(texts: &[&str]) -> Vec<String> {
    texts.iter().map(|text| text.to_string()).collect()
}

fn value<'a>(headers: &'a HeaderMap, name: &str) -> Option<&'a str> {
    headers.get(name).map(|text| text.as_str())
}

#[test]
fn header_line_splits_at_the_first_colon() {
    assert_eq!(
        split_header_line("Host: example.org:8080"),
        Some(("Host".to_string(), "example.org:8080".to_string()))
    );
}

#[test]
fn header_name_and_value_are_trimmed() {
    assert_eq!(
        split_header_line("  Accept \t:  text/html  "),
        Some(("Accept".to_string(), "text/html".to_string()))
    );
}

#[test]
fn header_line_may_have_an_empty_name_or_value() {
    assert_eq!(split_header_line(":"), Some((String::new(), String::new())));
    assert_eq!(split_header_line("X:"), Some(("X".to_string(), String::new())));
    assert_eq!(split_header_line(": v"), Some((String::new(), "v".to_string())));
}

#[test]
fn header_line_agrees_with_split_once_and_trim() {
    let samples = [
        "Name: Value",
        "no colon here",
        "",
        "a:b:c",
        " \u{a0}k\u{2003}:\u{3000}v\u{85}",
        "K\u{e9}y: v\u{e4}lue",
        "::",
    ];
    for sample in samples {
        let expected = sample
            .split_once(":")
            .map(|(name, value)| (name.trim().to_string(), value.trim().to_string()));
        assert_eq!(split_header_line(sample), expected, "{:?}", sample);
    }
}

#[test]
fn header_lines_build_the_mapping() {
    let headers = parse_header_lines(&lines(&["Host: example.org", "Accept: */*"])).unwrap();
    assert_eq!(headers.len(), 2);
    assert_eq!(value(&headers, "Host"), Some("example.org"));
    assert_eq!(value(&headers, "Accept"), Some("*/*"));
    assert_eq!(value(&headers, "Missing"), None);
}

#[test]
fn no_header_lines_give_an_empty_mapping() {
    let headers = parse_header_lines(&lines(&[])).unwrap();
    assert_eq!(headers.len(), 0);
    assert!(headers.is_empty());
}

#[test]
fn header_line_without_a_colon_is_skipped() {
    let headers = parse_header_lines(&lines(&["garbage-line", "X: 1"])).unwrap();
    assert_eq!(headers.len(), 1);
    assert_eq!(value(&headers, "X"), Some("1"));
    assert!(!headers.contains_key("garbage-line"));
}

#[test]
fn duplicate_header_name_takes_the_later_value() {
    let headers = parse_header_lines(&lines(&["X: 1", "X: 2"])).unwrap();
    assert_eq!(headers.len(), 1);
    assert_eq!(value(&headers, "X"), Some("2"));
}

#[test]
fn header_names_are_not_case_folded() {
    let headers = parse_header_lines(&lines(&["x: lower", "X: upper"])).unwrap();
    assert_eq!(headers.len(), 2);
    assert_eq!(value(&headers, "x"), Some("lower"));
    assert_eq!(value(&headers, "X"), Some("upper"));
}

#[test]
fn each_unique_name_yields_its_trimmed_value() {
    let pairs = [("Host", " example.org "), (" Accept", "*/*"), ("X-Empty ", ""), ("A", "b: c")];
    let texts: Vec<String> =
        pairs.iter().map(|(name, value)| format!("{}: {}", name, value)).collect();
    let headers = parse_header_lines(&texts).unwrap();
    assert_eq!(headers.len(), pairs.len());
    for (name, expected) in pairs {
        assert_eq!(value(&headers, name.trim()), Some(expected.trim()));
    }
}

#[test]
fn padded_header_line_parses_like_the_trimmed_one() {
    let padded = parse_header_lines(&lines(&["  Name  :  Value  "])).unwrap();
    let plain = parse_header_lines(&lines(&["Name:Value"])).unwrap();
    assert_eq!(padded.entries(), plain.entries());
}

#[test]
fn header_map_insert_replaces_and_adds() {
    let mut headers = HeaderMap::new();
    assert!(headers.is_empty());
    headers.insert("A".to_string(), "1".to_string());
    headers.insert("B".to_string(), "2".to_string());
    headers.insert("A".to_string(), "3".to_string());
    assert_eq!(headers.len(), 2);
    assert!(!headers.is_empty());
    assert_eq!(value(&headers, "A"), Some("3"));
    assert_eq!(value(&headers, "B"), Some("2"));
    assert!(headers.contains_key("A"));
    assert!(!headers.contains_key("a"));
    let mut entries = headers.entries().clone();
    entries.sort();
    assert_eq!(
        entries,
        vec![("A".to_string(), "3".to_string()), ("B".to_string(), "2".to_string())]
    );
}

#[test]
fn content_length_is_read_from_its_exact_name() {
    let headers = parse_header_lines(&lines(&["Content-Length: 42"])).unwrap();
    assert_eq!(content_length(&headers), 42);
    let folded = parse_header_lines(&lines(&["content-length: 42"])).unwrap();
    assert_eq!(content_length(&folded), 0);
}

#[test]
fn content_length_that_is_no_number_counts_as_zero() {
    for text in ["abc", "-1", "", "4294967296", "1 2", "0"] {
        let headers = parse_header_lines(&lines(&[&format!("Content-Length: {}", text)])).unwrap();
        assert_eq!(content_length(&headers), 0, "{:?}", text);
    }
    let absent = parse_header_lines(&lines(&["Host: h"])).unwrap();
    assert_eq!(content_length(&absent), 0);
}

#[test]
fn content_length_accepts_the_largest_u32() {
    let headers = parse_header_lines(&lines(&["Content-Length: 4294967295"])).unwrap();
    assert_eq!(content_length(&headers), 4294967295);
}

#[test]
fn body_bytes_in_utf8_decode_to_their_text() {
    assert_eq!(decode_body(&b"abcd".to_vec()), "abcd");
    assert_eq!(decode_body(&"gr\u{fc}n \u{1f600}".as_bytes().to_vec()), "gr\u{fc}n \u{1f600}");
    assert_eq!(decode_body(&Vec::new()), "");
}

#[test]
fn body_bytes_that_are_no_utf8_are_replaced() {
    assert_eq!(decode_body(&vec![b'a', 0xff, b'b']), "a\u{fffd}b");
    assert_eq!(decode_body(&vec![0xe2, 0x82]), "\u{fffd}");
    assert_eq!(decode_body(&vec![0xc0, 0x80]), "\u{fffd}\u{fffd}");
}
