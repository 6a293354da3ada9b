use httpserver::headers::Headers;
use httpserver::httpresponse::HttpResponse;

#[test]
fn test_response_struct_creation_200() {
    let response_actual = HttpResponse::new(
        "200",
        None,
        Some("Item was shipped on 21st Dec 2020".to_string()),
    );
    assert_eq!(response_actual.version(), "HTTP/1.1");
    assert_eq!(response_actual.status_code(), "200");
    assert_eq!(response_actual.status_text(), "OK");
    assert_eq!(response_actual.headers(), "Content-Type:text/html\r\n");
    assert_eq!(response_actual.body(), "Item was shipped on 21st Dec 2020");
}

#[test]
fn test_response_struct_creation_404() {
    let response_actual = HttpResponse::new(
        "404",
        None,
        Some("Item was shipped on 21st Dec 2020".to_string()),
    );
    assert_eq!(response_actual.version(), "HTTP/1.1");
    assert_eq!(response_actual.status_code(), "404");
    assert_eq!(response_actual.status_text(), "Not Found");
    assert_eq!(response_actual.headers(), "Content-Type:text/html\r\n");
    assert_eq!(response_actual.body(), "Item was shipped on 21st Dec 2020");
}

#[test]
fn test_http_response_creation() {
    let response_expected = HttpResponse::new(
        "404",
        None,
        Some("Item was shipped on 21st Dec 2020".to_string()),
    );
    let http_string: String = response_expected.response_string();
    let response_actual = "HTTP/1.1 404 Not Found\r\nContent-Type:text/html\r\nContent-Length: 33\r\n\r\nItem was shipped on 21st Dec 2020";
    assert_eq!(http_string, response_actual);
}

#[test]
fn status_text_table() {
    assert_eq!(HttpResponse::new("200", None, None).status_text(), "OK");
    assert_eq!(HttpResponse::new("400", None, None).status_text(), "Bad Request");
    assert_eq!(HttpResponse::new("404", None, None).status_text(), "Not Found");
    assert_eq!(
        HttpResponse::new("500", None, None).status_text(),
        "Internal Server Error",
    );
    // every code outside the table is labeled Not Found
    assert_eq!(HttpResponse::new("999", None, None).status_text(), "Not Found");
    assert_eq!(HttpResponse::new("201", None, None).status_text(), "Not Found");
}

#[test]
fn content_length_zero_without_body() {
    let response = HttpResponse::new("200", None, None);
    assert_eq!(
        response.response_string(),
        "HTTP/1.1 200 OK\r\nContent-Type:text/html\r\nContent-Length: 0\r\n\r\n",
    );
}

#[test]
fn content_length_matches_body_bytes() {
    let response = HttpResponse::new("200", None, Some("abcde".to_string()));
    let wire = response.response_string();
    assert!(wire.contains("Content-Length: 5\r\n\r\nabcde"));
}

#[test]
fn supplied_headers_are_used_as_given() {
    let mut h = Headers::new();
    h.insert("X-One".to_string(), "1".to_string());
    h.insert("X-Two".to_string(), "2".to_string());
    let response = HttpResponse::new("200", Some(h), None);
    assert_eq!(response.headers(), "X-One:1\r\nX-Two:2\r\n");
}

#[test]
fn empty_supplied_headers_stay_empty() {
    let response = HttpResponse::new("200", Some(Headers::new()), None);
    assert_eq!(response.headers(), "");
    assert_eq!(
        response.response_string(),
        "HTTP/1.1 200 OK\r\nContent-Length: 0\r\n\r\n",
    );
}

#[test]
fn send_response_writes_wire_form_and_reports_success() {
    let response = HttpResponse::new("200", None, Some("hello".to_string()));
    let mut sink: Vec<u8> = Vec::new();
    let sent = response.send_response(&mut sink);
    assert!(sent.is_ok());
    assert_eq!(String::from_utf8(sink).unwrap(), response.response_string());
}
