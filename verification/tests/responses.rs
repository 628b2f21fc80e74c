use minihttp::headers::{ContentType, Headers};
use minihttp::response::{Response, Writer};
use minihttp::server::{Method, RequestError, Server};
use minihttp::status::Status;

fn count_occurrences(haystack: &[u8], needle: &[u8]) -> usize {
    if needle.is_empty() || haystack.len() < needle.len() {
        return 0;
    }
    haystack.windows(needle.len()).filter(|w| *w == needle).count()
}

#[test]
fn fresh_response_has_status_ok() {
    let resp = Response::from_headers(Headers::new());
    assert_eq!(resp.status(), Status::OK);
    assert_eq!(resp.status().code(), 200);
    assert!(resp.output().is_empty());
}

#[test]
fn with_status_replaces_status() {
    let mut resp = Response::from_headers(Headers::new());
    resp.with_status(Status::NotFound);
    assert_eq!(resp.status(), Status::NotFound);
}

#[test]
fn framed_write_bad_request_exact_bytes() {
    let mut resp = Response::from_headers(Headers::new());
    resp.headers().set(
        String::from("Content-Type"),
        String::from(ContentType::ApplicationJson.as_str()),
    );
    let r = resp
        .with_status(Status::BadRequest)
        .write(String::from("{\"method\":\"x\"}\r\n"));
    assert_eq!(r, Ok(()));
    let out = resp.into_output();
    let expected = b"HTTP/1.1 400 Bad Request\r\nContent-Type: application/json\r\nContent-Length: 16\r\n\r\n{\"method\":\"x\"}\r\n";
    assert_eq!(out, expected.to_vec());
    assert!(out.starts_with(b"HTTP/1.1 400 Bad Request\r\n"));
    assert_eq!(count_occurrences(&out, b"\r\n\r\n"), 1);
    assert_eq!(count_occurrences(&out, b"Content-Length: 16"), 1);
}

#[test]
fn framed_write_counts_body_bytes_not_chars() {
    let mut resp = Response::from_headers(Headers::new());
    let r = resp.write(String::from("\u{e9}"));
    assert_eq!(r, Ok(()));
    let out = resp.into_output();
    assert_eq!(count_occurrences(&out, b"Content-Length: 2"), 1);
}

#[test]
fn framed_write_empty_body() {
    let mut resp = Response::from_headers(Headers::new());
    let r = resp.write(String::new());
    assert_eq!(r, Ok(()));
    assert_eq!(resp.into_output(), b"HTTP/1.1 200 OK\r\nContent-Length: 0\r\n\r\n".to_vec());
}

#[test]
fn raw_write_sends_bytes_unframed() {
    let mut resp = Response::from_headers(Headers::new());
    let r = Writer::<&[u8]>::write(&mut resp, b"raw bytes");
    assert_eq!(r, Ok(()));
    assert_eq!(resp.into_output(), b"raw bytes".to_vec());
}

#[test]
fn ping_round_trip() {
    fn ping(resp: &mut Response) {
        let r = resp.write(String::from("pong"));
        assert_eq!(r, Ok(()));
    }
    let mut srv: Server<fn(&mut Response)> = Server::new();
    srv.handler_get("/ping", ping);
    let handler = srv.dispatch("GET /ping HTTP/1.1").expect("route must resolve");
    let mut resp = Response::from_headers(Headers::new());
    handler(&mut resp);
    let out = resp.into_output();
    assert_eq!(out, b"HTTP/1.1 200 OK\r\nContent-Length: 4\r\n\r\npong".to_vec());
    assert_eq!(count_occurrences(&out, b"\r\n\r\n"), 1);
}

#[test]
fn missing_route_writes_no_bytes() {
    fn ping(resp: &mut Response) {
        let r = resp.write(String::from("pong"));
        assert_eq!(r, Ok(()));
    }
    let mut srv: Server<fn(&mut Response)> = Server::new();
    srv.handler_get("/ping", ping);
    let mut sent: Vec<u8> = Vec::new();
    match srv.dispatch("GET /missing HTTP/1.1") {
        Ok(handler) => {
            let mut resp = Response::from_headers(Headers::new());
            handler(&mut resp);
            sent.extend_from_slice(resp.into_output().as_slice());
        }
        Err(e) => {
            assert_eq!(e, RequestError::NoRoute);
        }
    }
    assert!(sent.is_empty());
}

#[test]
fn malformed_first_line_invokes_no_handler() {
    fn ping(resp: &mut Response) {
        let r = resp.write(String::from("pong"));
        assert_eq!(r, Ok(()));
    }
    let mut srv: Server<fn(&mut Response)> = Server::new();
    srv.handler_get("/ping", ping);
    let mut handler_ran = false;
    match srv.dispatch("GET") {
        Ok(handler) => {
            handler_ran = true;
            let mut resp = Response::from_headers(Headers::new());
            handler(&mut resp);
        }
        Err(e) => {
            assert_eq!(e, RequestError::MalformedRequestLine);
        }
    }
    assert!(!handler_ran);
    assert_eq!(srv.resolve(Method::GET, &String::from("GET")), None);
}

#[test]
fn handler_composes_status_headers_and_body() {
    let mut resp = Response::from_headers(Headers::new());
    resp.with_status(Status::InternalServerError)
        .headers()
        .set(String::from("X-Tag"), String::from("v"));
    let r = resp.write(String::from("oops"));
    assert_eq!(r, Ok(()));
    let out = resp.into_output();
    assert_eq!(
        out,
        b"HTTP/1.1 500 Internal Server\r\nX-Tag: v\r\nContent-Length: 4\r\n\r\noops".to_vec()
    );
}
