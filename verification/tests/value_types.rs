use minihttp::headers::{ContentType, Headers};
use minihttp::server::Method;
use minihttp::status::Status;

#[test]
fn content_type_wire_text() {
    assert_eq!(ContentType::ApplicationJson.as_str(), "application/json");
    assert_eq!(ContentType::default(), ContentType::ApplicationJson);
}

#[test]
fn status_codes_and_reasons() {
    assert_eq!(Status::OK.code(), 200);
    assert_eq!(Status::BadRequest.code(), 400);
    assert_eq!(Status::NotFound.code(), 404);
    assert_eq!(Status::InternalServerError.code(), 500);
    assert_eq!(Status::OK.reason(), "OK");
    assert_eq!(Status::BadRequest.reason(), "Bad Request");
    assert_eq!(Status::NotFound.reason(), "Not Found");
    assert_eq!(Status::InternalServerError.reason(), "Internal Server");
}

#[test]
fn status_default_is_ok() {
    assert_eq!(Status::default(), Status::OK);
}

#[test]
fn status_converts_to_numeric_code() {
    assert_eq!(i32::from(Status::OK), 200);
    assert_eq!(i32::from(Status::NotFound), 404);
}

#[test]
fn method_wire_names() {
    assert_eq!(Method::GET.as_str(), "GET");
    assert_eq!(Method::POST.as_str(), "POST");
}

#[test]
fn method_from_token() {
    assert_eq!(Method::from(String::from("GET")), Method::GET);
    assert_eq!(Method::from(String::from("POST")), Method::POST);
}

#[test]
fn unrecognized_method_collapses_to_post() {
    assert_eq!(Method::from(String::from("PUT")), Method::POST);
    assert_eq!(Method::from(String::from("get")), Method::POST);
    assert_eq!(Method::from(String::from("")), Method::POST);
}

#[test]
fn headers_start_empty() {
    let h = Headers::new();
    assert_eq!(h.to_wire_string(), "");
}

#[test]
fn headers_single_entry_wire_form() {
    let mut h = Headers::new();
    h.set(String::from("Content-Type"), String::from("application/json"));
    assert_eq!(h.to_wire_string(), "Content-Type: application/json");
}

#[test]
fn headers_set_same_name_twice_keeps_one_entry() {
    let mut h = Headers::new();
    h.set(String::from("X-Tag"), String::from("first"));
    h.set(String::from("X-Tag"), String::from("second"));
    let wire = h.to_wire_string();
    assert_eq!(wire, "X-Tag: second");
    assert_eq!(wire.matches("X-Tag").count(), 1);
}

#[test]
fn headers_several_entries_joined_by_newline() {
    let mut h = Headers::new();
    h.set(String::from("A"), String::from("1"));
    h.set(String::from("B"), String::from("2"));
    let wire = h.to_wire_string();
    assert!(wire.contains("A: 1"));
    assert!(wire.contains("B: 2"));
    assert_eq!(wire.matches('\n').count(), 1);
}

#[test]
fn headers_set_chains() {
    let mut h = Headers::new();
    h.set(String::from("A"), String::from("1"))
        .set(String::from("B"), String::from("2"));
    let wire = h.to_wire_string();
    assert!(wire.contains("A: 1"));
    assert!(wire.contains("B: 2"));
}
