//! A minimal HTTP request-line front end: a parser for the first line of an
//! HTTP message, an exact-match route table keyed by (method, path), and a
//! dispatcher that drives one connection from raw line to outcome.
//!
//! The transport itself (sockets, reading bytes, writing the status line) is
//! left to the embedding program; this crate works on plain byte values.

pub mod dispatch;
pub mod http;
pub mod method;
pub mod parser;
pub mod router;
