//! The header block: `<Name>: <Value>` lines, gathered into a mapping.

use crate::error::ParseError;
use crate::headers::HeaderMap;
use crate::text::{chars_of, slice_text, texts_of, trim_bounds, trimmed};
use vstd::prelude::*;

verus! {

/// The entry that a header line writes: the text on either side of its
/// first colon, trimmed. A line without a colon writes none.
pub open spec fn header_entry(line: Seq<char>) -> Option<(Seq<char>, Seq<char>)> {
    match line.index_of_first(':') {
        Some(colon) => Some((trimmed(line.take(colon)), trimmed(line.skip(colon + 1)))),
        None => None,
    }
}

/// The mapping that a list of header lines writes, from the first line to
/// the last: a line without a colon leaves it as it is, and a name written
/// again takes the later value.
pub open spec fn header_map(lines: Seq<Seq<char>>) -> Map<Seq<char>, Seq<char>>
    decreases lines.len(),
{
    if lines.len() == 0 {
        Map::empty()
    } else {
        let earlier = header_map(lines.drop_last());
        match header_entry(lines.last()) {
            Some((name, value)) => earlier.insert(name, value),
            None => earlier,
        }
    }
}

/// What `entry` stands for in contracts.
pub open spec fn entry_view(entry: Option<(String, String)>) -> Option<(Seq<char>, Seq<char>)> {
    match entry {
        Some((name, value)) => Some((name@, value@)),
        None => None,
    }
}

/// Splits a header line at its first colon into a trimmed name and a
/// trimmed value.
pub fn split_header_line(line: &str) -> (entry: Option<(String, String)>)
    ensures
        entry_view(entry) == header_entry(line@),
{
    let chars = chars_of(line);
    let len = chars.len();
    let mut colon: usize = 0;
    while colon < len && chars[colon] != ':'
        invariant
            colon <= len == chars.len(),
            forall|i: int| 0 <= i < colon ==> chars@[i] != ':',
        decreases len - colon,
    {
        colon += 1;
    }
    proof {
        line@.index_of_first_ensures(':');
    }
    if colon == len {
        return None;
    }
    let (name_from, name_to) = trim_bounds(&chars, 0, colon);
    let (value_from, value_to) = trim_bounds(&chars, colon + 1, len);
    let name = slice_text(line, name_from, name_to);
    let value = slice_text(line, value_from, value_to);
    Some((name, value))
}

/// Builds the header mapping from the lines of a header block.
///
/// No line is rejected: one without a colon is passed over.
pub fn parse_header_lines(header_lines: &Vec<String>) -> (headers: Result<HeaderMap, ParseError>)
    ensures
        headers matches Ok(map) && map@ == header_map(texts_of(header_lines@)),
{
    let mut map = HeaderMap::new();
    let ghost lines = texts_of(header_lines@);
    assert(lines.take(0) =~= Seq::<Seq<char>>::empty());
    let mut i: usize = 0;
    while i < header_lines.len()
        invariant
            i <= header_lines.len(),
            lines == texts_of(header_lines@),
            map@ == header_map(lines.take(i as int)),
        decreases header_lines.len() - i,
    {
        assert(lines.take(i + 1).drop_last() =~= lines.take(i as int));
        assert(lines.take(i + 1).last() == header_lines@[i as int]@);
        match split_header_line(header_lines[i].as_str()) {
            Some((name, value)) => {
                map.insert(name, value);
            },
            None => {},
        }
        i += 1;
    }
    assert(lines.take(header_lines.len() as int) =~= lines);
    Ok(map)
}

} // verus!
