//! The request record that a successful parse returns.

use crate::headers::HeaderMap;
use crate::method::{HttpMethod, HttpMethodView};
use vstd::prelude::*;

verus! {

/// One HTTP/1.1 request as it was read: nothing in it is decoded,
/// normalised or validated beyond what reading it took.
#[derive(Debug)]
pub struct Request {
    method: HttpMethod,
    uri: String,
    version: String,
    headers: HeaderMap,
    body: String,
}

/// What a [`Request`] stands for in contracts.
pub struct RequestView {
    pub method: HttpMethodView,
    pub uri: Seq<char>,
    pub version: Seq<char>,
    pub headers: Map<Seq<char>, Seq<char>>,
    pub body: Seq<char>,
}

impl View for Request {
    type V = RequestView;

    closed spec fn view(&self) -> RequestView {
        RequestView {
            method: self.method@,
            uri: self.uri@,
            version: self.version@,
            headers: self.headers@,
            body: self.body@,
        }
    }
}

impl Request {
    /// Puts a request together from its five parts.
    pub fn new(
        method: HttpMethod,
        uri: String,
        version: String,
        headers: HeaderMap,
        body: String,
    ) -> (request: Request)
        ensures
            request@ == (RequestView {
                method: method@,
                uri: uri@,
                version: version@,
                headers: headers@,
                body: body@,
            }),
    {
        Request { method, uri, version, headers, body }
    }

    /// The request method.
    pub fn method(&self) -> (method: &HttpMethod)
        ensures
            method@ == self@.method,
    {
        &self.method
    }

    /// The request target, as it stood in the request line.
    pub fn uri(&self) -> (uri: &String)
        ensures
            uri@ == self@.uri,
    {
        &self.uri
    }

    /// The protocol version token, as it stood in the request line.
    pub fn version(&self) -> (version: &String)
        ensures
            version@ == self@.version,
    {
        &self.version
    }

    /// The headers.
    pub fn headers(&self) -> (headers: &HeaderMap)
        ensures
            headers@ == self@.headers,
    {
        &self.headers
    }

    /// The body text: empty where the request has no body.
    pub fn body(&self) -> (body: &String)
        ensures
            body@ == self@.body,
    {
        &self.body
    }
}

} // verus!
