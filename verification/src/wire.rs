//! How a well-formed request stands on the wire: the request line, one line
//! for each header field, the blank line, and the body bytes.

use crate::body::declared_length;
use crate::header_block::header_entry;
use crate::parser::{blank_line, stripped, ReadEventView};
use crate::text::trimmed;
use crate::text_lemmas::lemma_trimmed_ignores_padding;
use vstd::prelude::*;
use vstd::utf8::encode_utf8;

verus! {

/// A header field as it is written: a name and a value.
pub type Field = (Seq<char>, Seq<char>);

/// Whether `name` can be written as a header name: it holds no colon and
/// no line feed.
pub open spec fn is_field_name(name: Seq<char>) -> bool {
    !name.contains(':') && !name.contains('\n')
}

/// Whether `value` can be written as a header value: it holds no line
/// feed.
pub open spec fn is_field_value(value: Seq<char>) -> bool {
    !value.contains('\n')
}

/// The request line `<METHOD> <URI> <VERSION>` with its terminator.
pub open spec fn request_line(method: Seq<char>, uri: Seq<char>, version: Seq<char>) -> Seq<
    char,
> {
    method + seq![' '] + uri + seq![' '] + version + blank_line()
}

/// The header line `<Name>: <Value>` with its terminator.
pub open spec fn header_line(name: Seq<char>, value: Seq<char>) -> Seq<char> {
    name + seq![':', ' '] + value + blank_line()
}

/// The header lines of `fields`, one after the other.
pub open spec fn header_block(fields: Seq<Field>) -> Seq<char>
    decreases fields.len(),
{
    if fields.len() == 0 {
        Seq::empty()
    } else {
        header_line(fields.first().0, fields.first().1) + header_block(fields.drop_first())
    }
}

/// The bytes of a request: its head as UTF-8, then its body.
pub open spec fn request_bytes(
    method: Seq<char>,
    uri: Seq<char>,
    version: Seq<char>,
    fields: Seq<Field>,
    body: Seq<u8>,
) -> Seq<u8> {
    encode_utf8(request_line(method, uri, version) + header_block(fields) + blank_line()) + body
}

/// What the reads of a connection give when `request_bytes` is what the
/// peer sent: the request line, each header line, the blank line, and the
/// body where the headers announce one.
pub open spec fn request_events(
    method: Seq<char>,
    uri: Seq<char>,
    version: Seq<char>,
    fields: Seq<Field>,
    body: Seq<u8>,
) -> Seq<ReadEventView> {
    seq![ReadEventView::Line(request_line(method, uri, version))] + Seq::new(
        fields.len(),
        |i: int| ReadEventView::Line(header_line(fields[i].0, fields[i].1)),
    ) + seq![ReadEventView::Line(blank_line())] + if declared_length(field_map(fields)) == 0 {
        Seq::empty()
    } else {
        seq![ReadEventView::Body(body)]
    }
}

/// The header lines of `fields` as a parser holds them: each one stripped.
pub open spec fn stripped_header_lines(fields: Seq<Field>) -> Seq<Seq<char>> {
    Seq::new(fields.len(), |i: int| stripped(header_line(fields[i].0, fields[i].1)))
}

/// The mapping that `fields` stand for: each trimmed name with its trimmed
/// value, a later field replacing an earlier one of the same name.
pub open spec fn field_map(fields: Seq<Field>) -> Map<Seq<char>, Seq<char>>
    decreases fields.len(),
{
    if fields.len() == 0 {
        Map::empty()
    } else {
        field_map(fields.drop_last()).insert(trimmed(fields.last().0), trimmed(fields.last().1))
    }
}

/// A name without a colon ends at the first colon of its line.
pub proof fn lemma_first_colon(name: Seq<char>, tail: Seq<char>)
    requires
        !name.contains(':'),
    ensures
        (name + seq![':'] + tail).index_of_first(':') == Some(name.len() as int),
{
    let line = name + seq![':'] + tail;
    line.index_of_first_ensures(':');
    assert(line[name.len() as int] == ':');
    match line.index_of_first(':') {
        Some(at) => {
            if at < name.len() {
                assert(name[at] == line[at]);
                assert(name.contains(':'));
            }
        },
        None => {},
    }
}

/// A line with a colon behind a name without one writes the trimmed name
/// and the trimmed rest.
pub proof fn lemma_header_entry(name: Seq<char>, value: Seq<char>)
    requires
        !name.contains(':'),
    ensures
        header_entry(name + seq![':'] + value) == Some((trimmed(name), trimmed(value))),
{
    let line = name + seq![':'] + value;
    lemma_first_colon(name, value);
    assert(line.take(name.len() as int) =~= name);
    assert(line.skip(name.len() as int + 1) =~= value);
}

/// A header line, once stripped, is its name, the colon, a space and its
/// value.
pub proof fn lemma_header_line_stripped(name: Seq<char>, value: Seq<char>)
    ensures
        stripped(header_line(name, value)) == name + seq![':', ' '] + value,
{
    let line = header_line(name, value);
    let kept = name + seq![':', ' '] + value;
    assert(line =~= kept + blank_line());
    assert(line[line.len() - 2] == '\r');
    assert(line[line.len() - 1] == '\n');
    assert(line.take(line.len() - 2) =~= kept);
}

/// A header line, once stripped, writes the trimmed name and the trimmed
/// value.
pub proof fn lemma_stripped_header_line(name: Seq<char>, value: Seq<char>)
    requires
        !name.contains(':'),
    ensures
        header_entry(stripped(header_line(name, value))) == Some((trimmed(name), trimmed(value))),
        stripped(header_line(name, value)).len() > 0,
{
    let rest = seq![' '] + value;
    lemma_header_line_stripped(name, value);
    assert(name + seq![':', ' '] + value =~= name + seq![':'] + rest);
    lemma_header_entry(name, rest);
    assert(rest =~= seq![' '] + value + Seq::<char>::empty());
    lemma_trimmed_ignores_padding(seq![' '], value, Seq::empty());
}

} // verus!
