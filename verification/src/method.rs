//! The closed set of HTTP methods this dispatcher understands, and the
//! case-sensitive parser from a raw method token to a `Method`.

use vstd::prelude::*;

verus! {

/// An HTTP verb. The set is closed by design: routing stays exhaustive, and
/// an unknown token is a parse failure, never a silent default.
#[derive(Clone, Copy, Debug, PartialEq, Eq, Structural)]
pub enum Method {
    GET,
    POST,
}

/// The ASCII bytes of the token `GET`.
pub open spec fn get_token() -> Seq<u8> {
    seq![71u8, 69u8, 84u8]
}

/// The ASCII bytes of the token `POST`.
pub open spec fn post_token() -> Seq<u8> {
    seq![80u8, 79u8, 83u8, 84u8]
}

/// What a raw method token denotes: `Some` exactly for the literal,
/// uppercase spellings of the supported verbs.
pub open spec fn method_of_token(t: Seq<u8>) -> Option<Method> {
    if t == get_token() {
        Some(Method::GET)
    } else if t == post_token() {
        Some(Method::POST)
    } else {
        None
    }
}

impl Method {
    /// Parse a method token. Matching is exact and case-sensitive:
    /// only `GET` and `POST` are recognized.
    pub fn parse(token: &[u8]) -> (r: Option<Method>)
        ensures
            r == method_of_token(token@),
    {
        if token.len() == 3 && token[0] == 71 && token[1] == 69 && token[2] == 84 {
            proof {
                assert(token@ =~= get_token());
            }
            Some(Method::GET)
        } else if token.len() == 4 && token[0] == 80 && token[1] == 79 && token[2] == 83
            && token[3] == 84 {
            proof {
                assert(token@ =~= post_token());
            }
            Some(Method::POST)
        } else {
            proof {
                assert(token@ != get_token());
                assert(token@ != post_token());
            }
            None
        }
    }
}

} // verus!
