//! The core of a small HTTP/1.1 server: request parsing, the response model
//! with its wire format, and routing.
//!
//! Everything here works on values in memory. A program around it reads the
//! text of a connection, hands it to [`http_request::HttpRequest::parse`],
//! asks [`router::Router::dispatch`] which handler is to answer, prepares
//! what that handler needs, and writes out what [`router::Router::route`]
//! puts into the sink.

pub mod handler;
pub mod headers;
pub mod http_request;
pub mod http_response;
pub mod router;
pub mod search;
pub mod server;
pub mod text;
