//! Reading one HTTP/1.1 request: the request line, the header block and the
//! body that `Content-Length` announces.
//!
//! The parsing itself does no I/O. [`parser::RequestParser`] says which read
//! is due and takes what the read gave; [`request::Request::from_stream`]
//! drives it over bytes held in memory. What a parse returns is stated in
//! contracts over [`memory::request_from`], and [`theorems`] holds what
//! follows from them.

pub mod body;
pub mod error;
pub mod framing;
pub mod header_block;
pub mod headers;
pub mod memory;
pub mod method;
pub mod number;
pub mod parser;
pub mod request;
pub mod start_line;
pub mod stream;
pub mod text;
pub mod text_lemmas;
pub mod theorems;
pub mod wire;

pub use error::{LinePurpose, ParseError};
pub use headers::HeaderMap;
pub use method::HttpMethod;
pub use parser::{Progress, ReadEvent, RequestParser, Wanted};
pub use request::Request;
pub use stream::ByteStream;
