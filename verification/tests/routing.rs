use minihttp::server::{parse_request_line, Method, RequestError, Server};

#[test]
fn resolve_returns_registered_handler() {
    let mut srv: Server<i32> = Server::new();
    srv.handler_get("/a", 1);
    srv.handler_post("/a", 2);
    srv.handler_get("/b", 3);
    assert_eq!(srv.resolve(Method::GET, &String::from("/a")), Some(&1));
    assert_eq!(srv.resolve(Method::POST, &String::from("/a")), Some(&2));
    assert_eq!(srv.resolve(Method::GET, &String::from("/b")), Some(&3));
}

#[test]
fn duplicate_registration_last_wins() {
    let mut srv: Server<i32> = Server::new();
    srv.handler_get("/a", 1);
    srv.handler_get("/a", 2);
    assert_eq!(srv.resolve(Method::GET, &String::from("/a")), Some(&2));
}

#[test]
fn unregistered_key_resolves_to_none() {
    let mut srv: Server<i32> = Server::new();
    srv.handler_get("/a", 1);
    assert_eq!(srv.resolve(Method::POST, &String::from("/a")), None);
    assert_eq!(srv.resolve(Method::GET, &String::from("/a/")), None);
    assert_eq!(srv.resolve(Method::GET, &String::from("/missing")), None);
    let empty: Server<i32> = Server::new();
    assert_eq!(empty.resolve(Method::GET, &String::from("/a")), None);
}

#[test]
fn lookup_is_exact_no_normalization() {
    let mut srv: Server<i32> = Server::new();
    srv.handler_get("/api/v1/route", 7);
    assert_eq!(srv.resolve(Method::GET, &String::from("/api/v1/route")), Some(&7));
    assert_eq!(srv.resolve(Method::GET, &String::from("/api/v1/route/")), None);
    assert_eq!(srv.resolve(Method::GET, &String::from("/API/v1/route")), None);
    assert_eq!(srv.resolve(Method::GET, &String::from("/api/v1")), None);
}

#[test]
fn registration_chains() {
    let mut srv: Server<i32> = Server::new();
    srv.handler_get("/a", 1).handler_post("/b", 2);
    assert_eq!(srv.resolve(Method::GET, &String::from("/a")), Some(&1));
    assert_eq!(srv.resolve(Method::POST, &String::from("/b")), Some(&2));
}

#[test]
fn request_line_splits_method_and_path() {
    let r = parse_request_line("GET /ping HTTP/1.1");
    assert_eq!(r, Some((Method::GET, String::from("/ping"))));
    let r = parse_request_line("POST /api/v1/route-number-3 HTTP/1.1");
    assert_eq!(r, Some((Method::POST, String::from("/api/v1/route-number-3"))));
}

#[test]
fn request_line_without_version_still_parses() {
    let r = parse_request_line("GET /ping");
    assert_eq!(r, Some((Method::GET, String::from("/ping"))));
}

#[test]
fn request_line_with_single_token_is_malformed() {
    assert_eq!(parse_request_line("GET"), None);
    assert_eq!(parse_request_line(""), None);
}

#[test]
fn request_line_with_double_space_yields_empty_path() {
    let r = parse_request_line("GET  /x");
    assert_eq!(r, Some((Method::GET, String::from(""))));
}

#[test]
fn dispatch_yields_handler_for_known_route() {
    let mut srv: Server<i32> = Server::new();
    srv.handler_get("/ping", 9);
    assert_eq!(srv.dispatch("GET /ping HTTP/1.1"), Ok(&9));
}

#[test]
fn dispatch_reports_missing_route() {
    let mut srv: Server<i32> = Server::new();
    srv.handler_get("/ping", 9);
    assert_eq!(srv.dispatch("GET /missing HTTP/1.1"), Err(RequestError::NoRoute));
}

#[test]
fn dispatch_reports_malformed_request_line() {
    let mut srv: Server<i32> = Server::new();
    srv.handler_get("/ping", 9);
    assert_eq!(srv.dispatch("GET"), Err(RequestError::MalformedRequestLine));
}
