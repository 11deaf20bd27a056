//! The per-connection lifecycle: one raw request line in, one terminal
//! outcome out. Parsing feeds routing, routing feeds the handler, and the
//! failure exits — parse failure and no matching route — are explicit
//! values, never silent drops.

use crate::http::{ParseError, Request, RequestView, Response, STATUS_BAD_REQUEST,
    STATUS_NOT_FOUND};
use crate::parser::{parse_request_line, parse_spec};
use crate::router::{find_route, Router};
use vstd::prelude::*;

verus! {

/// Application-supplied logic: a pure mapping from a request to a
/// status-only response. `response_of` is the mapping itself; `handle`
/// computes it.
pub trait Handler {
    /// The response this handler gives to a request.
    spec fn response_of(&self, req: RequestView) -> Response;

    /// Produce the response for one request.
    fn handle(&self, req: &Request) -> (r: Response)
        ensures
            r == self.response_of(req@),
    ;
}

/// A handler that answers every request with one fixed status code.
#[derive(Clone, Copy, Debug, PartialEq, Eq, Structural)]
pub struct FixedStatusHandler {
    pub status: u16,
}

impl Handler for FixedStatusHandler {
    open spec fn response_of(&self, req: RequestView) -> Response {
        Response { status: self.status }
    }

    fn handle(&self, req: &Request) -> (r: Response) {
        Response { status: self.status }
    }
}

/// The terminal state a connection reaches once its request line has been
/// consumed.
#[derive(Clone, Copy, Debug, PartialEq, Eq, Structural)]
pub enum DispatchOutcome {
    /// A route matched and its handler produced this response.
    Handled(Response),
    /// The request line parsed but no route carries its exact key.
    RouteNotFound,
    /// The request line itself was unusable; routing was never reached.
    ParseFailed(ParseError),
}

/// Everything one handled connection yields: the terminal outcome, and —
/// only when a request line actually parsed — the request itself, as the
/// diagnostic record of method, path and protocol version.
#[derive(Debug)]
pub struct ConnectionReport {
    pub request: Option<Request>,
    pub outcome: DispatchOutcome,
}

/// The view of the raw line a connection delivered: `None` when it closed
/// before any line arrived.
pub open spec fn line_view(line: Option<&[u8]>) -> Option<Seq<u8>> {
    match line {
        Some(l) => Some(l@),
        None => None,
    }
}

/// The outcome a route table gives to one connection: closing before a
/// request, or a parse failure, ends in `ParseFailed`; a parsed request
/// whose exact key is unregistered ends in `RouteNotFound`; otherwise the
/// first route with the key answers through its handler.
pub open spec fn dispatch_spec<H: Handler>(
    rs: Seq<crate::router::RouteView<H>>,
    line: Option<Seq<u8>>,
) -> DispatchOutcome {
    match line {
        None => DispatchOutcome::ParseFailed(ParseError::ConnectionClosedBeforeRequest),
        Some(l) => match parse_spec(l) {
            Err(e) => DispatchOutcome::ParseFailed(e),
            Ok(req) => match find_route(rs, req.method, req.path) {
                None => DispatchOutcome::RouteNotFound,
                Some(route) => DispatchOutcome::Handled(route.handler.response_of(req)),
            },
        },
    }
}

impl<H: Handler> Router<H> {
    /// Drive one connection from its raw request line (`None` if the peer
    /// closed first) to a terminal outcome: parse, match, invoke. The
    /// report carries the parsed request exactly when parsing succeeded,
    /// so a connection that never sent a request leaves no record
    /// resembling one.
    pub fn handle_line(&self, line: Option<&[u8]>) -> (r: ConnectionReport)
        ensures
            r.outcome == dispatch_spec(self@, line_view(line)),
            match line_view(line) {
                Some(l) => match parse_spec(l) {
                    Ok(req) => r.request matches Some(q) && q@ == req,
                    Err(_) => r.request is None,
                },
                None => r.request is None,
            },
    {
        match line {
            None => ConnectionReport {
                request: None,
                outcome: DispatchOutcome::ParseFailed(ParseError::ConnectionClosedBeforeRequest),
            },
            Some(l) => match parse_request_line(l) {
                Err(e) => ConnectionReport {
                    request: None,
                    outcome: DispatchOutcome::ParseFailed(e),
                },
                Ok(req) => match self.find(req.method, req.path.as_slice()) {
                    None => ConnectionReport {
                        request: Some(req),
                        outcome: DispatchOutcome::RouteNotFound,
                    },
                    Some(route) => {
                        let resp = route.handler.handle(&req);
                        ConnectionReport {
                            request: Some(req),
                            outcome: DispatchOutcome::Handled(resp),
                        }
                    },
                },
            },
        }
    }
}

/// The response the transport owes the peer for an outcome: the handler's
/// own response on a hit, a not-found status on a well-formed miss, a
/// bad-request status on an unusable line — and nothing at all for a peer
/// that closed before sending a request.
pub open spec fn response_for_spec(outcome: DispatchOutcome) -> Option<Response> {
    match outcome {
        DispatchOutcome::Handled(resp) => Some(resp),
        DispatchOutcome::RouteNotFound => Some(Response { status: STATUS_NOT_FOUND }),
        DispatchOutcome::ParseFailed(ParseError::ConnectionClosedBeforeRequest) => None,
        DispatchOutcome::ParseFailed(_) => Some(Response { status: STATUS_BAD_REQUEST }),
    }
}

/// The response to serialize back onto the connection for an outcome, or
/// `None` when no response is owed.
pub fn response_for(outcome: &DispatchOutcome) -> (r: Option<Response>)
    ensures
        r == response_for_spec(*outcome),
{
    match outcome {
        DispatchOutcome::Handled(resp) => Some(*resp),
        DispatchOutcome::RouteNotFound => Some(Response { status: STATUS_NOT_FOUND }),
        DispatchOutcome::ParseFailed(ParseError::ConnectionClosedBeforeRequest) => None,
        DispatchOutcome::ParseFailed(_) => Some(Response { status: STATUS_BAD_REQUEST }),
    }
}

/// No match is observable, never silent: a well-formed request whose exact
/// key no route carries ends in the explicit `RouteNotFound` outcome, and
/// that outcome owes the peer a not-found response.
pub proof fn lemma_no_match_observable<H: Handler>(
    rs: Seq<crate::router::RouteView<H>>,
    l: Seq<u8>,
)
    requires
        parse_spec(l) matches Ok(req) && find_route(rs, req.method, req.path) is None,
    ensures
        dispatch_spec(rs, Some(l)) == DispatchOutcome::RouteNotFound,
        response_for_spec(dispatch_spec(rs, Some(l))) == Some(Response { status: STATUS_NOT_FOUND }),
{
}

} // verus!
