use http_router::http::ParseError;
use http_router::method::Method;
use http_router::parser::{parse_request_line, tokenize};

#[test]
fn method_parse_recognizes_get_and_post() {
    assert_eq!(Method::parse(b"GET"), Some(Method::GET));
    assert_eq!(Method::parse(b"POST"), Some(Method::POST));
}

#[test]
fn method_parse_is_exact_and_case_sensitive() {
    assert_eq!(Method::parse(b"get"), None);
    assert_eq!(Method::parse(b"Get"), None);
    assert_eq!(Method::parse(b"GETX"), None);
    assert_eq!(Method::parse(b"GE"), None);
    assert_eq!(Method::parse(b"POS"), None);
    assert_eq!(Method::parse(b""), None);
    assert_eq!(Method::parse(b"FETCH"), None);
}

#[test]
fn tokenize_splits_on_whitespace_runs() {
    let toks = tokenize(b"GET  \t /a   HTTP/1.1");
    assert_eq!(toks.len(), 3);
    assert_eq!(toks[0], b"GET".to_vec());
    assert_eq!(toks[1], b"/a".to_vec());
    assert_eq!(toks[2], b"HTTP/1.1".to_vec());
}

#[test]
fn tokenize_ignores_leading_and_trailing_whitespace() {
    let toks = tokenize(b"  GET / ");
    assert_eq!(toks.len(), 2);
    assert_eq!(toks[0], b"GET".to_vec());
    assert_eq!(toks[1], b"/".to_vec());
}

#[test]
fn parse_three_tokens_with_known_method_succeeds() {
    let req = parse_request_line(b"GET / HTTP/1.1").unwrap();
    assert_eq!(req.method, Method::GET);
    assert_eq!(req.path, b"/".to_vec());
    assert_eq!(req.version, b"HTTP/1.1".to_vec());
}

#[test]
fn parse_post_request_line() {
    let req = parse_request_line(b"POST /submit HTTP/1.0").unwrap();
    assert_eq!(req.method, Method::POST);
    assert_eq!(req.path, b"/submit".to_vec());
    assert_eq!(req.version, b"HTTP/1.0".to_vec());
}

#[test]
fn parse_keeps_target_verbatim() {
    let req = parse_request_line(b"GET /x/?q=1%20 HTTP/1.1").unwrap();
    assert_eq!(req.path, b"/x/?q=1%20".to_vec());
}

#[test]
fn parse_two_tokens_is_malformed() {
    assert_eq!(
        parse_request_line(b"GET /").unwrap_err(),
        ParseError::MalformedRequestLine
    );
}

#[test]
fn parse_one_token_is_malformed() {
    assert_eq!(
        parse_request_line(b"GET").unwrap_err(),
        ParseError::MalformedRequestLine
    );
}

#[test]
fn parse_whitespace_only_line_is_malformed() {
    assert_eq!(
        parse_request_line(b"   ").unwrap_err(),
        ParseError::MalformedRequestLine
    );
}

#[test]
fn parse_unknown_method_token_is_rejected() {
    assert_eq!(
        parse_request_line(b"FETCH / HTTP/1.1").unwrap_err(),
        ParseError::UnknownMethod
    );
}

#[test]
fn parse_lowercase_method_is_rejected() {
    assert_eq!(
        parse_request_line(b"get / HTTP/1.1").unwrap_err(),
        ParseError::UnknownMethod
    );
}

#[test]
fn parse_empty_line_is_connection_closed() {
    assert_eq!(
        parse_request_line(b"").unwrap_err(),
        ParseError::ConnectionClosedBeforeRequest
    );
}

#[test]
fn parse_ignores_tokens_beyond_the_third() {
    let req = parse_request_line(b"GET / HTTP/1.1 extra junk").unwrap();
    assert_eq!(req.method, Method::GET);
    assert_eq!(req.path, b"/".to_vec());
    assert_eq!(req.version, b"HTTP/1.1".to_vec());
}

#[test]
fn parse_does_not_validate_the_version_token() {
    let req = parse_request_line(b"GET / HTTP/0.5").unwrap();
    assert_eq!(req.version, b"HTTP/0.5".to_vec());
}
