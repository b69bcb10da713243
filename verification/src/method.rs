//! The request method: eight known verbs and an open variant for the rest.

use crate::text::same_text;
use vstd::prelude::*;

verus! {

/// The method named by the first token of a request line.
#[derive(Debug, PartialEq, Eq)]
pub enum HttpMethod {
    GET,
    HEAD,
    POST,
    PUT,
    DELETE,
    CONNECT,
    OPTIONS,
    TRACE,
    /// Any token that is none of the eight verbs above, kept as it came.
    OTHER(String),
}

/// What an [`HttpMethod`] stands for in contracts.
pub enum HttpMethodView {
    GET,
    HEAD,
    POST,
    PUT,
    DELETE,
    CONNECT,
    OPTIONS,
    TRACE,
    OTHER(Seq<char>),
}

impl View for HttpMethod {
    type V = HttpMethodView;

    open spec fn view(&self) -> HttpMethodView {
        match self {
            HttpMethod::GET => HttpMethodView::GET,
            HttpMethod::HEAD => HttpMethodView::HEAD,
            HttpMethod::POST => HttpMethodView::POST,
            HttpMethod::PUT => HttpMethodView::PUT,
            HttpMethod::DELETE => HttpMethodView::DELETE,
            HttpMethod::CONNECT => HttpMethodView::CONNECT,
            HttpMethod::OPTIONS => HttpMethodView::OPTIONS,
            HttpMethod::TRACE => HttpMethodView::TRACE,
            HttpMethod::OTHER(token) => HttpMethodView::OTHER(token@),
        }
    }
}

impl Clone for HttpMethod {
    fn clone(&self) -> (copy: HttpMethod)
        ensures
            copy@ == self@,
    {
        match self {
            HttpMethod::GET => HttpMethod::GET,
            HttpMethod::HEAD => HttpMethod::HEAD,
            HttpMethod::POST => HttpMethod::POST,
            HttpMethod::PUT => HttpMethod::PUT,
            HttpMethod::DELETE => HttpMethod::DELETE,
            HttpMethod::CONNECT => HttpMethod::CONNECT,
            HttpMethod::OPTIONS => HttpMethod::OPTIONS,
            HttpMethod::TRACE => HttpMethod::TRACE,
            HttpMethod::OTHER(token) => HttpMethod::OTHER(token.clone()),
        }
    }
}

/// The method that a token names. The match is exact and case-sensitive:
/// `get`, the empty token and every other text fall to `OTHER`.
pub open spec fn method_of_token(token: Seq<char>) -> HttpMethodView {
    if token == "GET"@ {
        HttpMethodView::GET
    } else if token == "HEAD"@ {
        HttpMethodView::HEAD
    } else if token == "POST"@ {
        HttpMethodView::POST
    } else if token == "PUT"@ {
        HttpMethodView::PUT
    } else if token == "OPTIONS"@ {
        HttpMethodView::OPTIONS
    } else if token == "DELETE"@ {
        HttpMethodView::DELETE
    } else if token == "CONNECT"@ {
        HttpMethodView::CONNECT
    } else if token == "TRACE"@ {
        HttpMethodView::TRACE
    } else {
        HttpMethodView::OTHER(token)
    }
}

impl HttpMethod {
    /// Resolves a method token.
    pub fn from_token(token: &str) -> (method: HttpMethod)
        ensures
            method@ == method_of_token(token@),
    {
        if same_text(token, "GET") {
            HttpMethod::GET
        } else if same_text(token, "HEAD") {
            HttpMethod::HEAD
        } else if same_text(token, "POST") {
            HttpMethod::POST
        } else if same_text(token, "PUT") {
            HttpMethod::PUT
        } else if same_text(token, "OPTIONS") {
            HttpMethod::OPTIONS
        } else if same_text(token, "DELETE") {
            HttpMethod::DELETE
        } else if same_text(token, "CONNECT") {
            HttpMethod::CONNECT
        } else if same_text(token, "TRACE") {
            HttpMethod::TRACE
        } else {
            HttpMethod::OTHER(token.to_owned())
        }
    }
}

} // verus!
