//! The request-line parser: splits one raw line into whitespace-separated
//! tokens and builds a `Request` from the `METHOD TARGET VERSION` triple,
//! or reports exactly why it could not.

use crate::http::{ParseError, Request, RequestView};
use crate::method::method_of_token;
use vstd::prelude::*;

verus! {

/// The bytes treated as token separators: space, tab, carriage return,
/// line feed. Runs of them separate tokens; they never appear in one.
pub open spec fn is_ws(b: u8) -> bool {
    b == 32 || b == 9 || b == 13 || b == 10
}

/// The tokens of `s` from position `i` on, given the partial token `cur`
/// read so far and the tokens `acc` already complete.
pub open spec fn tokens_from(s: Seq<u8>, i: int, cur: Seq<u8>, acc: Seq<Seq<u8>>) -> Seq<Seq<u8>>
    decreases s.len() - i,
{
    if i < 0 || i >= s.len() {
        if cur.len() == 0 {
            acc
        } else {
            acc.push(cur)
        }
    } else if is_ws(s[i]) {
        if cur.len() == 0 {
            tokens_from(s, i + 1, cur, acc)
        } else {
            tokens_from(s, i + 1, Seq::empty(), acc.push(cur))
        }
    } else {
        tokens_from(s, i + 1, cur.push(s[i]), acc)
    }
}

/// The maximal runs of non-whitespace bytes in `s`, in order.
pub open spec fn tokens_of(s: Seq<u8>) -> Seq<Seq<u8>> {
    tokens_from(s, 0, Seq::empty(), Seq::empty())
}

/// The byte sequences held by a sequence of byte vectors.
pub open spec fn views_of(ts: Seq<Vec<u8>>) -> Seq<Seq<u8>> {
    ts.map_values(|t: Vec<u8>| t@)
}

/// Split a line into its whitespace-separated tokens.
pub fn tokenize(line: &[u8]) -> (r: Vec<Vec<u8>>)
    ensures
        views_of(r@) == tokens_of(line@),
{
    let mut toks: Vec<Vec<u8>> = Vec::new();
    let mut cur: Vec<u8> = Vec::new();
    let mut i: usize = 0;
    proof {
        assert(views_of(toks@) =~= Seq::<Seq<u8>>::empty());
    }
    while i < line.len()
        invariant
            i <= line.len(),
            tokens_of(line@) == tokens_from(line@, i as int, cur@, views_of(toks@)),
        decreases line.len() - i,
    {
        let ghost prev_toks = views_of(toks@);
        let ghost prev_cur = cur@;
        let b = line[i];
        if b == 32 || b == 9 || b == 13 || b == 10 {
            if cur.len() > 0 {
                let done = cur;
                cur = Vec::new();
                toks.push(done);
                proof {
                    assert(views_of(toks@) =~= prev_toks.push(prev_cur));
                }
            }
        } else {
            cur.push(b);
        }
        i += 1;
    }
    if cur.len() > 0 {
        let ghost prev_toks = views_of(toks@);
        let ghost prev_cur = cur@;
        toks.push(cur);
        proof {
            assert(views_of(toks@) =~= prev_toks.push(prev_cur));
        }
    }
    toks
}

/// What parsing a raw request line yields. An empty line is the distinct
/// closed-before-request condition; a nonempty line needs at least the
/// three tokens `METHOD TARGET VERSION` (extra tokens beyond the third are
/// ignored), and the method token must be a recognized verb. The target
/// and version are taken verbatim, with no normalization or validation.
pub open spec fn parse_spec(s: Seq<u8>) -> Result<RequestView, ParseError> {
    if s.len() == 0 {
        Err(ParseError::ConnectionClosedBeforeRequest)
    } else {
        let ts = tokens_of(s);
        if ts.len() < 3 {
            Err(ParseError::MalformedRequestLine)
        } else {
            match method_of_token(ts[0]) {
                Some(m) => Ok(RequestView { method: m, path: ts[1], version: ts[2] }),
                None => Err(ParseError::UnknownMethod),
            }
        }
    }
}

/// Parse one raw request line (without its trailing newline) into a
/// `Request`, exactly as `parse_spec` describes.
pub fn parse_request_line(line: &[u8]) -> (r: Result<Request, ParseError>)
    ensures
        match r {
            Ok(req) => parse_spec(line@) == Ok::<RequestView, ParseError>(req@),
            Err(e) => parse_spec(line@) == Err::<RequestView, ParseError>(e),
        },
{
    if line.len() == 0 {
        return Err(ParseError::ConnectionClosedBeforeRequest);
    }
    let mut toks = tokenize(line);
    if toks.len() < 3 {
        return Err(ParseError::MalformedRequestLine);
    }
    let ghost ts = tokens_of(line@);
    let ghost toks0 = toks@;
    let version = toks.remove(2);
    let ghost toks1 = toks@;
    let path = toks.remove(1);
    proof {
        toks0.remove_ensures(2);
        toks1.remove_ensures(1);
        assert(version@ == ts[2]);
        assert(path@ == toks0[1]@);
        assert(path@ == ts[1]);
        assert(toks@[0] == toks0[0]);
        assert(toks@[0]@ == ts[0]);
    }
    match crate::method::Method::parse(toks[0].as_slice()) {
        Some(method) => {
            let req = Request { method, path, version };
            proof {
                assert(req@ =~= parse_spec(line@)->Ok_0);
            }
            Ok(req)
        },
        None => Err(ParseError::UnknownMethod),
    }
}

/// Parse totality: a line with exactly the three expected tokens and a
/// recognized method token parses to the corresponding request; a nonempty
/// line with fewer than three tokens is malformed; a line with enough
/// tokens but an unrecognized method token fails with `UnknownMethod`.
/// The one line outside these clauses is the empty line, which is the
/// distinct closed-before-request condition.
pub proof fn lemma_parse_totality(s: Seq<u8>)
    ensures
        tokens_of(s).len() == 3 ==> (method_of_token(tokens_of(s)[0]) matches Some(m)
            ==> parse_spec(s) == Ok::<RequestView, ParseError>(
            RequestView { method: m, path: tokens_of(s)[1], version: tokens_of(s)[2] },
        )),
        (s.len() > 0 && tokens_of(s).len() < 3) ==> parse_spec(s) == Err::<
            RequestView,
            ParseError,
        >(ParseError::MalformedRequestLine),
        (tokens_of(s).len() >= 3 && method_of_token(tokens_of(s)[0]) is None) ==> parse_spec(s)
            == Err::<RequestView, ParseError>(ParseError::UnknownMethod),
        s.len() == 0 ==> parse_spec(s) == Err::<RequestView, ParseError>(
            ParseError::ConnectionClosedBeforeRequest,
        ),
{
    if s.len() == 0 {
        assert(tokens_of(s) =~= Seq::<Seq<u8>>::empty());
    }
}

} // verus!
