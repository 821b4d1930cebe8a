//! An incremental, zero-copy parser for HTTP/1.x request lines, status lines
//! and header blocks, verified against a byte-level model of the grammar.
pub mod common;
pub mod grammar;
pub mod header;
pub mod headers;
pub mod line;
pub mod request;
pub mod response;
pub mod theorems;

pub use common::{Error, Status};
pub use header::{Header, HeaderField};
pub use headers::Headers;
pub use request::Request;
pub use response::Response;
