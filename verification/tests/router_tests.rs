use http_router::dispatch::FixedStatusHandler;
use http_router::method::Method;
use http_router::router::Router;

fn handler(status: u16) -> FixedStatusHandler {
    FixedStatusHandler { status }
}

#[test]
fn new_table_matches_nothing() {
    let router: Router<FixedStatusHandler> = Router::new();
    assert!(router.find(Method::GET, b"/").is_none());
    assert!(router.routes.is_empty());
}

#[test]
fn find_hits_the_registered_key() {
    let mut router = Router::new();
    router.add_route(Method::GET, b"/x".to_vec(), handler(200));
    let route = router.find(Method::GET, b"/x").unwrap();
    assert_eq!(route.method, Method::GET);
    assert_eq!(route.path, b"/x".to_vec());
    assert_eq!(route.handler, handler(200));
}

#[test]
fn find_is_exact_match_only() {
    let mut router = Router::new();
    router.add_route(Method::GET, b"/x".to_vec(), handler(200));
    assert!(router.find(Method::GET, b"/").is_none());
    assert!(router.find(Method::GET, b"/x/").is_none());
    assert!(router.find(Method::GET, b"/xy").is_none());
    assert!(router.find(Method::GET, b"/x/y").is_none());
    assert!(router.find(Method::GET, b"x").is_none());
    assert!(router.find(Method::GET, b"/X").is_none());
}

#[test]
fn find_discriminates_methods() {
    let mut router = Router::new();
    router.get(b"/x".to_vec(), handler(201));
    router.post(b"/x".to_vec(), handler(202));
    assert_eq!(router.find(Method::GET, b"/x").unwrap().handler, handler(201));
    assert_eq!(router.find(Method::POST, b"/x").unwrap().handler, handler(202));
}

#[test]
fn method_without_registration_does_not_match() {
    let mut router = Router::new();
    router.get(b"/x".to_vec(), handler(201));
    assert!(router.find(Method::POST, b"/x").is_none());
}

#[test]
fn duplicate_registration_last_write_wins() {
    let mut router = Router::new();
    router.get(b"/x".to_vec(), handler(201));
    router.get(b"/x".to_vec(), handler(203));
    assert_eq!(router.find(Method::GET, b"/x").unwrap().handler, handler(203));
    assert_eq!(router.routes.len(), 1);
}

#[test]
fn replacement_keeps_scan_order_of_distinct_keys() {
    let mut router = Router::new();
    router.get(b"/a".to_vec(), handler(201));
    router.get(b"/b".to_vec(), handler(202));
    router.get(b"/a".to_vec(), handler(203));
    assert_eq!(router.routes.len(), 2);
    assert_eq!(router.routes[0].path, b"/a".to_vec());
    assert_eq!(router.routes[0].handler, handler(203));
    assert_eq!(router.routes[1].path, b"/b".to_vec());
    assert_eq!(router.find(Method::GET, b"/a").unwrap().handler, handler(203));
    assert_eq!(router.find(Method::GET, b"/b").unwrap().handler, handler(202));
}

#[test]
fn distinct_paths_resolve_independently() {
    let mut router = Router::new();
    router.get(b"/".to_vec(), handler(210));
    router.get(b"/about".to_vec(), handler(211));
    router.post(b"/".to_vec(), handler(212));
    assert_eq!(router.find(Method::GET, b"/").unwrap().handler, handler(210));
    assert_eq!(router.find(Method::GET, b"/about").unwrap().handler, handler(211));
    assert_eq!(router.find(Method::POST, b"/").unwrap().handler, handler(212));
    assert!(router.find(Method::POST, b"/about").is_none());
}
