//! A minimal HTTP/1.1 request/response kernel.
//!
//! The library covers the computational core of a tiny web server: request-line
//! parsing, exact-path routing keyed by (method, path), and response
//! serialization (status line, header block, `Content-Length`, body). All I/O
//! stays outside: a caller reads the request text from its connection, hands it
//! in as plain strings, and sends the composed bytes back itself.

pub mod headers;
pub mod response;
pub mod server;
pub mod status;
pub mod text;
