//! Core data carried through one request cycle: the parsed request, the
//! status-only response, the parse-error taxonomy, and the well-known
//! status codes with their reason phrases.

use crate::method::Method;
use vstd::prelude::*;

verus! {

/// Why a raw request line failed to parse.
#[derive(Clone, Copy, Debug, PartialEq, Eq, Structural)]
pub enum ParseError {
    /// The peer closed the connection (or sent an empty line) before any
    /// request line arrived. A no-op close, not an application error.
    ConnectionClosedBeforeRequest,
    /// The line does not have the three-token `METHOD TARGET VERSION` shape.
    MalformedRequestLine,
    /// The method token is not in the closed `Method` set.
    UnknownMethod,
}

/// A parsed request line. `path` is the raw request-target as received:
/// no trailing-slash collapsing, no query stripping, no percent-decoding.
/// The protocol version is captured for observability, not validated.
#[derive(Debug)]
pub struct Request {
    pub method: Method,
    pub path: Vec<u8>,
    pub version: Vec<u8>,
}

/// The mathematical value of a `Request`.
#[verifier::ext_equal]
pub ghost struct RequestView {
    pub method: Method,
    pub path: Seq<u8>,
    pub version: Seq<u8>,
}

impl View for Request {
    type V = RequestView;

    open spec fn view(&self) -> RequestView {
        RequestView { method: self.method, path: self.path@, version: self.version@ }
    }
}

/// The HTTP status code signalling success.
pub const STATUS_OK: u16 = 200;

/// The HTTP status code sent when a well-formed request matches no route.
pub const STATUS_NOT_FOUND: u16 = 404;

/// The HTTP status code sent when the request line itself is unusable.
pub const STATUS_BAD_REQUEST: u16 = 400;

/// A status-only response descriptor. The status space is an open-ended
/// integer; serializing it onto the wire is the transport's job.
#[derive(Clone, Copy, Debug, PartialEq, Eq, Structural)]
pub struct Response {
    pub status: u16,
}

/// The reason phrase paired with each well-known status code, and the
/// empty phrase for every other code.
pub open spec fn reason_of(status: u16) -> Seq<char> {
    if status == 200 {
        "OK"@
    } else if status == 404 {
        "Not Found"@
    } else if status == 400 {
        "Bad Request"@
    } else {
        ""@
    }
}

/// The textual reason phrase for a status code, for the transport to put
/// on the status line.
pub fn status_reason(status: u16) -> (r: &'static str)
    ensures
        r@ == reason_of(status),
{
    if status == 200 {
        "OK"
    } else if status == 404 {
        "Not Found"
    } else if status == 400 {
        "Bad Request"
    } else {
        ""
    }
}

} // verus!
