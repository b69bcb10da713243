//! The request line: `<METHOD> <URI> <VERSION>`.

use crate::error::ParseError;
use crate::method::{method_of_token, HttpMethod, HttpMethodView};
use crate::text::{chars_of, next_token, slice_text, tokens};
use vstd::prelude::*;

verus! {

/// What a request line decomposes into: the method that its first token
/// names, and its second and third token as they stand. Tokens after the
/// third are ignored. A line with no token has no method; a line with one
/// or two tokens lacks the URI or the version.
pub open spec fn start_line_fields(line: Seq<char>) -> Result<
    (HttpMethodView, Seq<char>, Seq<char>),
    ParseError,
> {
    let parts = tokens(line);
    if parts.len() == 0 {
        Err(ParseError::MissingMethod)
    } else if parts.len() < 3 {
        Err(ParseError::MissingUriOrVersion)
    } else {
        Ok((method_of_token(parts[0]), parts[1], parts[2]))
    }
}

/// Splits a request line into method, URI and version.
///
/// The URI and the version are neither decoded nor validated.
pub fn parse_start_line(start_line: &String) -> (fields: Result<
    (HttpMethod, String, String),
    ParseError,
>)
    ensures
        match fields {
            Ok((method, uri, version)) => start_line_fields(start_line@) == Ok::<
                (HttpMethodView, Seq<char>, Seq<char>),
                ParseError,
            >((method@, uri@, version@)),
            Err(error) => start_line_fields(start_line@) == Err::<
                (HttpMethodView, Seq<char>, Seq<char>),
                ParseError,
            >(error),
        },
{
    let line = start_line.as_str();
    let chars = chars_of(line);
    assert(chars@.skip(0) =~= chars@);
    let (method_from, method_to) = next_token(&chars, 0);
    if method_from == method_to {
        return Err(ParseError::MissingMethod);
    }
    let (uri_from, uri_to) = next_token(&chars, method_to);
    if uri_from == uri_to {
        return Err(ParseError::MissingUriOrVersion);
    }
    let (version_from, version_to) = next_token(&chars, uri_to);
    if version_from == version_to {
        return Err(ParseError::MissingUriOrVersion);
    }
    let method_token = slice_text(line, method_from, method_to);
    let method = HttpMethod::from_token(method_token.as_str());
    let uri = slice_text(line, uri_from, uri_to);
    let version = slice_text(line, version_from, version_to);
    Ok((method, uri, version))
}

} // verus!
