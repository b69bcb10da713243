//! What holds of every parse: the statements that callers can build on,
//! each proved from the definitions of this crate.

use crate::body::{body_text, declared_length};
use crate::error::ParseError;
use crate::framing::{lemma_encode_concat, lemma_line_is_read_back};
use crate::header_block::{header_entry, header_map};
use crate::memory::{header_lines_from, lemma_line_text_empty, request_from};
use crate::method::{method_of_token, HttpMethodView};
use crate::parser::{
    blank_line, ends_with_terminator, run, stripped, ParserView, ProgressView, ReadEventView,
};
use crate::request::RequestView;
use crate::start_line::start_line_fields;
use crate::stream::after_line;
use crate::text::{tokens, trimmed, trimmed_start};
use crate::text_lemmas::{
    all_spaces, is_token, lemma_tokens_after_token, lemma_tokens_ignore_padding,
    lemma_trimmed_end_is_prefix, lemma_trimmed_ignores_padding, lemma_trimmed_start_is_suffix,
    lemma_trimmed_twice,
};
use crate::wire::{
    field_map, header_block, header_line, is_field_name, is_field_value, lemma_header_entry,
    lemma_stripped_header_line, request_bytes, request_events, request_line,
    stripped_header_lines, Field,
};
use vstd::prelude::*;
use vstd::utf8::{decode_utf8_encode_utf8, encode_utf8, valid_utf8};

verus! {

/// A line without a colon adds nothing to the headers and does not stop
/// the lines after it from being read.
pub proof fn lemma_line_without_colon_is_skipped(
    before: Seq<Seq<char>>,
    line: Seq<char>,
    after: Seq<Seq<char>>,
)
    requires
        !line.contains(':'),
    ensures
        header_map(before.push(line)) == header_map(before),
        header_map(before.push(line) + after) == header_map(before + after),
    decreases after.len(),
{
    line.index_of_first_ensures(':');
    assert(before.push(line).drop_last() =~= before);
    if after.len() == 0 {
        assert(before.push(line) + after =~= before.push(line));
        assert(before + after =~= before);
    } else {
        lemma_line_without_colon_is_skipped(before, line, after.drop_last());
        assert((before.push(line) + after).drop_last() =~= before.push(line) + after.drop_last());
        assert((before + after).drop_last() =~= before + after.drop_last());
    }
}

/// Whether `line` writes a value for `name`.
pub open spec fn writes_name(line: Seq<char>, name: Seq<char>) -> bool {
    header_entry(line) matches Some(entry) && entry.0 == name
}

/// The value of a name is the one that the last line with that name
/// writes.
pub proof fn lemma_last_line_of_a_name_wins(
    lines: Seq<Seq<char>>,
    at: int,
    name: Seq<char>,
    value: Seq<char>,
)
    requires
        0 <= at < lines.len(),
        header_entry(lines[at]) == Some((name, value)),
        forall|later: int| at < later < lines.len() ==> !writes_name(#[trigger] lines[later], name),
    ensures
        header_map(lines).contains_key(name),
        header_map(lines)[name] == value,
    decreases lines.len(),
{
    if at < lines.len() - 1 {
        let earlier = lines.drop_last();
        assert(earlier[at] == lines[at]);
        assert forall|later: int| at < later < earlier.len() implies !writes_name(
            #[trigger] earlier[later],
            name,
        ) by {
            assert(earlier[later] == lines[later]);
        }
        lemma_last_line_of_a_name_wins(earlier, at, name, value);
        assert(!writes_name(lines[lines.len() - 1], name));
    }
}

/// A line `name: value` writes its trimmed value for its trimmed name,
/// whatever value the lines before it wrote for that name.
pub proof fn lemma_later_line_replaces_value(
    lines: Seq<Seq<char>>,
    name: Seq<char>,
    value: Seq<char>,
)
    requires
        !name.contains(':'),
    ensures
        header_map(lines.push(name + seq![':'] + value)) == header_map(lines).insert(
            trimmed(name),
            trimmed(value),
        ),
{
    lemma_header_entry(name, value);
    assert(lines.push(name + seq![':'] + value).drop_last() =~= lines);
}

/// The headers of the header lines of `fields` are the mapping that
/// `fields` stand for.
pub proof fn lemma_headers_of_fields(fields: Seq<Field>)
    requires
        forall|i: int| 0 <= i < fields.len() ==> !(#[trigger] fields[i]).0.contains(':'),
    ensures
        header_map(stripped_header_lines(fields)) == field_map(fields),
    decreases fields.len(),
{
    if fields.len() > 0 {
        let earlier = fields.drop_last();
        assert forall|i: int| 0 <= i < earlier.len() implies !(#[trigger] earlier[i]).0.contains(
            ':',
        ) by {
            assert(earlier[i] == fields[i]);
        }
        lemma_headers_of_fields(earlier);
        assert(stripped_header_lines(fields).drop_last() =~= stripped_header_lines(earlier));
        assert(fields.last() == fields[fields.len() - 1]);
        lemma_stripped_header_line(fields.last().0, fields.last().1);
    }
}

/// Round trip: where `fields` hold no name twice, trimming apart, the
/// headers of their lines `Name: Value` give for each name its value,
/// trimmed.
pub proof fn lemma_headers_round_trip(fields: Seq<Field>)
    requires
        forall|i: int| 0 <= i < fields.len() ==> !(#[trigger] fields[i]).0.contains(':'),
        forall|i: int, j: int|
            0 <= i < j < fields.len() ==> trimmed((#[trigger] fields[i]).0) != trimmed(
                (#[trigger] fields[j]).0,
            ),
    ensures
        forall|i: int|
            0 <= i < fields.len() ==> header_map(stripped_header_lines(fields)).contains_key(
                trimmed((#[trigger] fields[i]).0),
            ) && header_map(stripped_header_lines(fields))[trimmed(fields[i].0)] == trimmed(
                fields[i].1,
            ),
{
    let lines = stripped_header_lines(fields);
    assert forall|i: int| 0 <= i < fields.len() implies header_map(lines).contains_key(
        trimmed((#[trigger] fields[i]).0),
    ) && header_map(lines)[trimmed(fields[i].0)] == trimmed(fields[i].1) by {
        lemma_stripped_header_line(fields[i].0, fields[i].1);
        assert forall|later: int| i < later < lines.len() implies !writes_name(
            #[trigger] lines[later],
            trimmed(fields[i].0),
        ) by {
            lemma_stripped_header_line(fields[later].0, fields[later].1);
            assert(trimmed(fields[i].0) != trimmed(fields[later].0));
        }
        lemma_last_line_of_a_name_wins(lines, i, trimmed(fields[i].0), trimmed(fields[i].1));
    }
}

/// What is cut out of a text without a colon holds none either.
proof fn lemma_trimmed_holds_no_colon(name: Seq<char>)
    requires
        !name.contains(':'),
    ensures
        !trimmed(name).contains(':'),
{
    lemma_trimmed_start_is_suffix(name);
    lemma_trimmed_end_is_prefix(trimmed_start(name));
    if trimmed(name).contains(':') {
        let i = choose|i: int| 0 <= i < trimmed(name).len() && trimmed(name)[i] == ':';
        let lead = name.len() - trimmed_start(name).len();
        assert(trimmed(name)[i] == trimmed_start(name)[i]);
        assert(trimmed_start(name)[i] == name[lead + i]);
    }
}

/// Trimming is idempotent: a header line whose name and value carry
/// whitespace around them writes what the line with the trimmed name and
/// the trimmed value writes.
pub proof fn lemma_padded_header_parses_like_trimmed(name: Seq<char>, value: Seq<char>)
    requires
        !name.contains(':'),
    ensures
        trimmed(trimmed(name)) == trimmed(name),
        trimmed(trimmed(value)) == trimmed(value),
        header_entry(name + seq![':'] + value) == header_entry(
            trimmed(name) + seq![':'] + trimmed(value),
        ),
        header_entry(stripped(header_line(name, value))) == header_entry(
            stripped(header_line(trimmed(name), trimmed(value))),
        ),
{
    lemma_trimmed_twice(name);
    lemma_trimmed_twice(value);
    lemma_trimmed_holds_no_colon(name);
    lemma_header_entry(name, value);
    lemma_header_entry(trimmed(name), trimmed(value));
    lemma_stripped_header_line(name, value);
    lemma_stripped_header_line(trimmed(name), trimmed(value));
}

/// Whitespace at the end of a line carries no meaning: a request line and
/// a header line parse to what they parse to without it.
pub proof fn lemma_trailing_whitespace_is_immaterial(kept: Seq<char>, cut: Seq<char>)
    requires
        all_spaces(cut),
    ensures
        start_line_fields(kept + cut) == start_line_fields(kept),
        header_entry(kept + cut) == header_entry(kept),
{
    let line = kept + cut;
    lemma_tokens_ignore_padding(kept, cut);
    line.index_of_first_ensures(':');
    kept.index_of_first_ensures(':');
    match line.index_of_first(':') {
        Some(colon) => {
            assert(colon < kept.len()) by {
                if colon >= kept.len() {
                    assert(cut[colon - kept.len()] == line[colon]);
                }
            }
            assert(kept[colon] == line[colon]);
            assert(kept.index_of_first(':') == Some(colon)) by {
                let found = kept.index_of_first(':')->0;
                if found < colon {
                    assert(line[found] == kept[found]);
                }
            }
            assert(kept.take(colon) =~= line.take(colon));
            let value = line.skip(colon + 1);
            assert(value =~= Seq::<char>::empty() + kept.skip(colon + 1) + cut);
            lemma_trimmed_ignores_padding(Seq::empty(), kept.skip(colon + 1), cut);
        },
        None => {
            if kept.contains(':') {
                let found = choose|i: int| 0 <= i < kept.len() && kept[i] == ':';
                assert(line[found] == ':');
            }
        },
    }
}

/// Stripping takes nothing off a line that its parse depends on: a line
/// parses with its terminator to what it parses to without.
pub proof fn lemma_terminator_is_immaterial(line: Seq<char>)
    ensures
        start_line_fields(stripped(line)) == start_line_fields(line),
        header_entry(stripped(line)) == header_entry(line),
{
    if ends_with_terminator(line) {
        let kept = stripped(line);
        assert(line =~= kept + blank_line());
        lemma_trailing_whitespace_is_immaterial(kept, blank_line());
    }
}

/// Without an announced length there is no body: where the headers of a
/// request hold no `Content-Length`, or one that writes no number or
/// writes zero, the body is empty and no byte behind the blank line is
/// read.
pub proof fn lemma_no_length_no_body(data: Seq<u8>)
    requires
        request_from(data).0 is Ok,
    ensures
        ({
            let request = request_from(data).0->Ok_0;
            let length = declared_length(request.headers);
            &&& !request.headers.contains_key("Content-Length"@) ==> length == 0
            &&& length == 0 ==> request.body == Seq::<char>::empty() && request_from(data).1
                == header_lines_from(after_line(data)).1
        }),
{
    match header_lines_from(after_line(data)).0 {
        Some(lines) => {
            assert(Seq::<Seq<char>>::empty() + lines =~= lines);
        },
        None => {},
    }
}

/// With an announced length the body is the text of exactly that many
/// bytes, taken from behind the blank line; where those bytes are valid
/// UTF-8, the body is as many bytes long as was announced.
pub proof fn lemma_body_has_announced_length(data: Seq<u8>)
    requires
        request_from(data).0 is Ok,
        declared_length(request_from(data).0->Ok_0.headers) != 0,
    ensures
        ({
            let request = request_from(data).0->Ok_0;
            let length = declared_length(request.headers) as int;
            let unread = header_lines_from(after_line(data)).1;
            &&& length <= unread.len()
            &&& request.body == body_text(unread.take(length))
            &&& request_from(data).1 == unread.skip(length)
            &&& valid_utf8(unread.take(length)) ==> encode_utf8(request.body).len() == length
        }),
{
    match header_lines_from(after_line(data)).0 {
        Some(lines) => {
            assert(Seq::<Seq<char>>::empty() + lines =~= lines);
            let unread = header_lines_from(after_line(data)).1;
            let length = declared_length(header_map(lines)) as int;
            if valid_utf8(unread.take(length)) {
                decode_utf8_encode_utf8(unread.take(length));
            }
        },
        None => {},
    }
}

/// The request line `<METHOD> <URI> <VERSION>` decomposes into the method
/// that its first token names, and its URI and version as they were
/// written.
pub proof fn lemma_request_line_fields(method: Seq<char>, uri: Seq<char>, version: Seq<char>)
    requires
        is_token(method),
        is_token(uri),
        is_token(version),
    ensures
        start_line_fields(stripped(request_line(method, uri, version))) == Ok::<
            (HttpMethodView, Seq<char>, Seq<char>),
            ParseError,
        >((method_of_token(method), uri, version)),
{
    let space = seq![' '];
    let after_uri = space + version;
    let after_method = space + (uri + after_uri);
    let line = method + after_method;
    let raw = request_line(method, uri, version);
    assert(raw =~= line + blank_line());
    assert(raw[raw.len() - 2] == '\r');
    assert(raw[raw.len() - 1] == '\n');
    assert(raw.take(raw.len() - 2) =~= line);
    lemma_tokens_after_token(method, after_method);
    assert(after_method.drop_first() =~= uri + after_uri);
    lemma_tokens_after_token(uri, after_uri);
    assert(after_uri.drop_first() =~= version);
    assert(version + Seq::<char>::empty() =~= version);
    lemma_tokens_after_token(version, Seq::empty());
    assert(tokens(line) =~= seq![method, uri, version]);
}

/// What stands before the line feed of a header line holds no line feed.
proof fn lemma_header_line_content(name: Seq<char>, value: Seq<char>)
    requires
        is_field_name(name),
        is_field_value(value),
    ensures
        header_line(name, value) == (name + seq![':', ' '] + value + seq!['\r']) + seq!['\n'],
        !(name + seq![':', ' '] + value + seq!['\r']).contains('\n'),
{
    let content = name + seq![':', ' '] + value + seq!['\r'];
    assert(header_line(name, value) =~= content + seq!['\n']);
    if content.contains('\n') {
        let i = choose|i: int| 0 <= i < content.len() && content[i] == '\n';
        if i < name.len() {
            assert(name[i] == '\n');
        } else if i >= name.len() + 2 && i < name.len() + 2 + value.len() {
            assert(value[i - name.len() - 2] == '\n');
        }
    }
}

/// The header lines of `fields` and the blank line, in front of any bytes,
/// are read back as those lines, stripped, and the bytes are what is left.
pub proof fn lemma_header_block_is_read_back(fields: Seq<Field>, tail: Seq<u8>)
    requires
        forall|i: int|
            0 <= i < fields.len() ==> is_field_name((#[trigger] fields[i]).0) && is_field_value(
                fields[i].1,
            ),
    ensures
        header_lines_from(encode_utf8(header_block(fields) + blank_line()) + tail) == (
            Some(stripped_header_lines(fields)),
            tail,
        ),
    decreases fields.len(),
{
    let data = encode_utf8(header_block(fields) + blank_line()) + tail;
    if fields.len() == 0 {
        assert(header_block(fields) + blank_line() =~= seq!['\r'] + seq!['\n']);
        assert(!seq!['\r'].contains('\n'));
        lemma_line_is_read_back(seq!['\r'], tail);
        lemma_line_text_empty(data);
        assert(stripped_header_lines(fields) =~= Seq::<Seq<char>>::empty());
    } else {
        let name = fields.first().0;
        let value = fields.first().1;
        let later = fields.drop_first();
        let content = name + seq![':', ' '] + value + seq!['\r'];
        let line = header_line(name, value);
        let after = encode_utf8(header_block(later) + blank_line()) + tail;
        assert(fields.first() == fields[0]);
        lemma_header_line_content(name, value);
        assert(header_block(fields) + blank_line() =~= line + (header_block(later) + blank_line()));
        lemma_encode_concat(line, header_block(later) + blank_line());
        assert(data =~= encode_utf8(line) + after);
        lemma_line_is_read_back(content, after);
        lemma_line_text_empty(data);
        assert(line.len() >= 4);
        assert forall|i: int| 0 <= i < later.len() implies is_field_name((#[trigger] later[i]).0)
            && is_field_value(later[i].1) by {
            assert(later[i] == fields[i + 1]);
        }
        lemma_header_block_is_read_back(later, tail);
        assert(seq![stripped(line)] + stripped_header_lines(later) =~= stripped_header_lines(
            fields,
        ));
    }
}

/// Every well-formed request parses to what was written: a request line
/// of three tokens, a line `Name: Value` for each field, the blank line and
/// as many body bytes as the headers announce give a request with that
/// method, URI and version, the fields as headers, trimmed, and the text
/// of the body; nothing behind the body is read.
pub proof fn lemma_well_formed_request_parses(
    method: Seq<char>,
    uri: Seq<char>,
    version: Seq<char>,
    fields: Seq<Field>,
    body: Seq<u8>,
    rest: Seq<u8>,
)
    requires
        is_token(method),
        is_token(uri),
        is_token(version),
        forall|i: int|
            0 <= i < fields.len() ==> is_field_name((#[trigger] fields[i]).0) && is_field_value(
                fields[i].1,
            ),
        declared_length(field_map(fields)) == body.len(),
    ensures
        request_from(request_bytes(method, uri, version, fields, body) + rest) == (
            Ok::<RequestView, ParseError>(
                RequestView {
                    method: method_of_token(method),
                    uri,
                    version,
                    headers: field_map(fields),
                    body: body_text(body),
                },
            ),
            rest,
        ),
{
    let first = request_line(method, uri, version);
    let content = method + seq![' '] + uri + seq![' '] + version + seq!['\r'];
    let block = header_block(fields) + blank_line();
    let data = request_bytes(method, uri, version, fields, body) + rest;
    let after_first = encode_utf8(block) + (body + rest);
    assert(first =~= content + seq!['\n']);
    assert(!content.contains('\n')) by {
        if content.contains('\n') {
            let i = choose|i: int| 0 <= i < content.len() && content[i] == '\n';
            if i < method.len() {
                assert(method[i] == '\n');
            } else if method.len() < i < method.len() + 1 + uri.len() {
                assert(uri[i - method.len() - 1] == '\n');
            } else if method.len() + 1 + uri.len() < i < method.len() + 2 + uri.len()
                + version.len() {
                assert(version[i - method.len() - uri.len() - 2] == '\n');
            }
        }
    }
    assert(first + header_block(fields) + blank_line() =~= first + block);
    lemma_encode_concat(first, block);
    assert(data =~= encode_utf8(first) + after_first);
    lemma_line_is_read_back(content, after_first);
    lemma_request_line_fields(method, uri, version);
    lemma_header_block_is_read_back(fields, body + rest);
    lemma_headers_of_fields(fields);
    let lines = stripped_header_lines(fields);
    assert(Seq::<Seq<char>>::empty() + lines =~= lines);
    if body.len() == 0 {
        assert(body + rest =~= rest);
        assert(body_text(body) =~= Seq::<char>::empty());
    } else {
        assert((body + rest).take(body.len() as int) =~= body);
        assert((body + rest).skip(body.len() as int) =~= rest);
    }
}

/// Header lines fed to a parser that is reading the header block join
/// the lines that it holds, each stripped.
proof fn lemma_header_lines_are_gathered(
    method: HttpMethodView,
    uri: Seq<char>,
    version: Seq<char>,
    lines: Seq<Seq<char>>,
    fields: Seq<Field>,
    later: Seq<ReadEventView>,
)
    requires
        forall|i: int| 0 <= i < fields.len() ==> !(#[trigger] fields[i]).0.contains(':'),
    ensures
        run(
            ParserView::Headers { method, uri, version, lines },
            Seq::new(
                fields.len(),
                |i: int| ReadEventView::Line(header_line(fields[i].0, fields[i].1)),
            ) + later,
        ) == run(
            ParserView::Headers {
                method,
                uri,
                version,
                lines: lines + stripped_header_lines(fields),
            },
            later,
        ),
    decreases fields.len(),
{
    let events = Seq::new(
        fields.len(),
        |i: int| ReadEventView::Line(header_line(fields[i].0, fields[i].1)),
    );
    if fields.len() == 0 {
        assert(events + later =~= later);
        assert(lines + stripped_header_lines(fields) =~= lines);
    } else {
        let rest = fields.drop_first();
        let line = header_line(fields[0].0, fields[0].1);
        let rest_events = Seq::new(
            rest.len(),
            |i: int| ReadEventView::Line(header_line(rest[i].0, rest[i].1)),
        );
        assert((events + later).first() == ReadEventView::Line(line));
        assert((events + later).drop_first() =~= rest_events + later);
        assert(line.len() >= 4);
        assert forall|i: int| 0 <= i < rest.len() implies !(#[trigger] rest[i]).0.contains(':') by {
            assert(rest[i] == fields[i + 1]);
        }
        lemma_header_lines_are_gathered(
            method,
            uri,
            version,
            lines.push(stripped(line)),
            rest,
            later,
        );
        assert(lines.push(stripped(line)) + stripped_header_lines(rest) =~= lines
            + stripped_header_lines(fields));
    }
}

/// A parser that is fed the reads of a well-formed request, in order,
/// completes with the request that was written.
pub proof fn lemma_parser_completes_well_formed_request(
    method: Seq<char>,
    uri: Seq<char>,
    version: Seq<char>,
    fields: Seq<Field>,
    body: Seq<u8>,
)
    requires
        is_token(method),
        is_token(uri),
        is_token(version),
        forall|i: int| 0 <= i < fields.len() ==> !(#[trigger] fields[i]).0.contains(':'),
        declared_length(field_map(fields)) == body.len(),
    ensures
        run(ParserView::StartLine, request_events(method, uri, version, fields, body))
            == ProgressView::Complete(
            RequestView {
                method: method_of_token(method),
                uri,
                version,
                headers: field_map(fields),
                body: body_text(body),
            },
        ),
{
    let events = request_events(method, uri, version, fields, body);
    let header_events = Seq::new(
        fields.len(),
        |i: int| ReadEventView::Line(header_line(fields[i].0, fields[i].1)),
    );
    let last_events = if declared_length(field_map(fields)) == 0 {
        Seq::empty()
    } else {
        seq![ReadEventView::Body(body)]
    };
    let later = seq![ReadEventView::Line(blank_line())] + last_events;
    let lines = stripped_header_lines(fields);
    let kind = method_of_token(method);
    let reading = ParserView::Headers { method: kind, uri, version, lines: Seq::empty() };
    let read = ParserView::Headers { method: kind, uri, version, lines };
    lemma_request_line_fields(method, uri, version);
    assert(events.first() == ReadEventView::Line(request_line(method, uri, version)));
    assert(events.drop_first() =~= header_events + later);
    assert(run(ParserView::StartLine, events) == run(reading, header_events + later));
    lemma_header_lines_are_gathered(kind, uri, version, Seq::empty(), fields, later);
    assert(Seq::<Seq<char>>::empty() + lines =~= lines);
    assert(run(reading, header_events + later) == run(read, later));
    lemma_headers_of_fields(fields);
    assert(later.first() == ReadEventView::Line(blank_line()));
    assert(later.drop_first() =~= last_events);
    if body.len() == 0 {
        assert(body_text(body) =~= Seq::<char>::empty());
    } else {
        let waiting = ParserView::Body {
            method: kind,
            uri,
            version,
            headers: field_map(fields),
            length: declared_length(field_map(fields)),
        };
        assert(run(read, later) == run(waiting, last_events));
        assert(last_events.first() == ReadEventView::Body(body));
    }
}

} // verus!
