use httpserver::httprequest::HttpRequest;
use httpserver::httprequest::Method;
use httpserver::httprequest::Resource;
use httpserver::httprequest::Version;

#[test]
fn test_method_into() {
    let m: Method = Method::from("GET");
    assert_eq!(m, Method::Get);
}

#[test]
fn test_version_into() {
    let v: Version = Version::from("HTTP/1.1");
    assert_eq!(v, Version::V1_1);
}

#[test]
fn test_read_http() {
    let s: String = String::from("GET /greeting HTTP/1.1\r\nHost: localhost:3000\r\nUser-Agent: curl/7.71.1\r\nAccept: */*\r\n\r\n");
    let req: HttpRequest = HttpRequest::from(s);
    assert_eq!(Method::Get, req.method);
    assert_eq!(Version::V1_1, req.version);
    assert_eq!(Resource::Path("/greeting".to_string()), req.resource);
    assert_eq!(req.headers.len(), 3);
    assert_eq!(req.headers.get("Host").unwrap().as_str(), "localhost:3000");
    assert_eq!(req.headers.get("User-Agent").unwrap().as_str(), "curl/7.71.1");
    assert_eq!(req.headers.get("Accept").unwrap().as_str(), "*/*");
}

#[test]
fn method_post_and_unknown() {
    assert_eq!(Method::from("POST"), Method::Post);
    assert_eq!(Method::from("PUT"), Method::Uninitialized);
    assert_eq!(Method::from("get"), Method::Uninitialized);
    assert_eq!(Method::from(""), Method::Uninitialized);
}

#[test]
fn version_unknown_strings() {
    assert_eq!(Version::from("HTTP/2.0"), Version::Uninitialized);
    assert_eq!(Version::from("http/1.1"), Version::Uninitialized);
    assert_eq!(Version::from(""), Version::Uninitialized);
}

#[test]
fn parse_keeps_last_body_line_before_terminator() {
    let s = String::from("GET /x HTTP/1.1\r\nfirst body\r\nsecond body\r\n\r\nignored tail\r\n");
    let req = HttpRequest::from(s);
    assert_eq!(req.msg_body, "second body");
    assert_eq!(req.headers.len(), 0);
}

#[test]
fn parse_stops_at_blank_line() {
    let s = String::from("GET /x HTTP/1.1\r\n\r\nSkipped: yes\r\n");
    let req = HttpRequest::from(s);
    assert_eq!(req.headers.len(), 0);
    assert_eq!(req.msg_body, "");
}

#[test]
fn parse_duplicate_header_last_wins() {
    let s = String::from("GET /x HTTP/1.1\r\nHost: one\r\nHost: two\r\n\r\n");
    let req = HttpRequest::from(s);
    assert_eq!(req.headers.len(), 1);
    assert_eq!(req.headers.get("Host").unwrap().as_str(), "two");
}

#[test]
fn parse_header_trims_and_keeps_colons_in_value() {
    let s = String::from("GET /x HTTP/1.1\r\n  Key  :  spaced value  \r\nHost: localhost:3000\r\n\r\n");
    let req = HttpRequest::from(s);
    assert_eq!(req.headers.get("Key").unwrap().as_str(), "spaced value");
    // the value keeps everything after the first `:`
    assert_eq!(req.headers.get("Host").unwrap().as_str(), "localhost:3000");
}

#[test]
fn parse_short_request_line_degrades() {
    let req = HttpRequest::from(String::from("HTTP\r\n\r\n"));
    assert_eq!(req.method, Method::Uninitialized);
    assert_eq!(req.version, Version::Uninitialized);
    assert_eq!(req.resource, Resource::Path(String::new()));
}

#[test]
fn parse_empty_input_degrades() {
    let req = HttpRequest::from(String::new());
    assert_eq!(req.method, Method::Uninitialized);
    assert_eq!(req.version, Version::Uninitialized);
    assert_eq!(req.resource, Resource::Path(String::new()));
    assert_eq!(req.headers.len(), 0);
    assert_eq!(req.msg_body, "");
}
