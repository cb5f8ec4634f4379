//! The verified core of a small HTTP/1.1 server: request parsing by
//! Content-Length framing, routing over a fixed set of endpoints, and
//! exact response serialization, with gzip compression done by flate2
//! behind a trusted wrapper.
//!
//! Everything that touches the outside world stays with the caller: it
//! reads the stream's lines and the body bytes, performs the one file
//! read or write that a `/files/` route asks for, and writes the
//! serialized response back to the socket.
pub mod gzip;
pub mod request;
pub mod response;
pub mod router;
pub mod text;
