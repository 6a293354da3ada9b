use httpserver::handler::LoadedContent;
use httpserver::handler::PageNotFoundHandler;
use httpserver::handler::StaticPageHandler;
use httpserver::handler::WebServiceHandler;
use httpserver::httprequest::HttpRequest;
use httpserver::router::Router;
use httpserver::server::Server;

fn content(
    static_file: Option<&str>,
    not_found_page: Option<&str>,
    orders_json: Option<&str>,
) -> LoadedContent {
    LoadedContent {
        static_file: static_file.map(|s| s.to_string()),
        not_found_page: not_found_page.map(|s| s.to_string()),
        orders_json: orders_json.map(|s| s.to_string()),
    }
}

fn get(path: &str) -> HttpRequest {
    HttpRequest::from(format!("GET {} HTTP/1.1\r\nHost: localhost\r\n\r\n", path))
}

#[test]
fn orders_route_serves_json_array() {
    let req = get("/api/shipping/orders");
    let json = "[{\"order_id\":1,\"order_date\":\"21 Jan 2021\",\"order_status\":\"Delivered\"}]";
    let c = content(None, None, Some(json));
    let resp = Router::respond(&req, &c);
    assert_eq!(resp.status_code(), "200");
    assert_eq!(resp.headers(), "Content-Type:application/json\r\n");
    assert_eq!(resp.body(), json);
    let value: serde_json::Value = serde_json::from_str(resp.body()).unwrap();
    assert!(value.is_array());
}

#[test]
fn post_dispatches_to_not_found_whatever_the_path() {
    for path in ["/", "/greeting", "/api/shipping/orders", "/health"] {
        let req = HttpRequest::from(format!("POST {} HTTP/1.1\r\n\r\n", path));
        let c = content(Some("exists"), Some("<h1>404</h1>"), Some("[]"));
        let resp = Router::respond(&req, &c);
        assert_eq!(resp.status_code(), "404");
        assert_eq!(resp.body(), "<h1>404</h1>");
    }
}

#[test]
fn css_file_present_and_absent() {
    let req = get("/style.css");
    let c = content(Some("p { color: red }"), Some("missing"), None);
    let resp = StaticPageHandler::handle(&req, &c);
    assert_eq!(resp.status_code(), "200");
    assert_eq!(resp.headers(), "Content-Type:text/css\r\n");
    assert_eq!(resp.body(), "p { color: red }");

    let c = content(None, Some("missing"), None);
    let resp = StaticPageHandler::handle(&req, &c);
    assert_eq!(resp.status_code(), "404");
    assert_eq!(resp.body(), "missing");
}

#[test]
fn js_and_plain_files_get_their_content_type() {
    let c = content(Some("x"), None, None);
    let resp = StaticPageHandler::handle(&get("/app.js"), &c);
    assert_eq!(resp.headers(), "Content-Type:text/javascript\r\n");
    let resp = StaticPageHandler::handle(&get("/page.html"), &c);
    assert_eq!(resp.headers(), "Content-Type:text/html\r\n");
}

#[test]
fn root_and_health_serve_their_pages() {
    assert_eq!(StaticPageHandler::target_file(&get("/")), "index.html");
    assert_eq!(StaticPageHandler::target_file(&get("/health")), "health.html");
    assert_eq!(StaticPageHandler::target_file(&get("/style.css")), "style.css");

    let c = content(Some("<h1>home</h1>"), None, None);
    let resp = StaticPageHandler::handle(&get("/"), &c);
    assert_eq!(resp.status_code(), "200");
    assert_eq!(resp.headers(), "Content-Type:text/html\r\n");
    assert_eq!(resp.body(), "<h1>home</h1>");

    // the health page is served with 200 even when the file is missing
    let c = content(None, None, None);
    let resp = StaticPageHandler::handle(&get("/health"), &c);
    assert_eq!(resp.status_code(), "200");
    assert_eq!(resp.body(), "");
}

#[test]
fn api_route_without_orders_data_degrades_to_500() {
    let req = get("/api/shipping/orders");
    let c = content(None, None, None);
    let resp = WebServiceHandler::handle(&req, &c);
    assert_eq!(resp.status_code(), "500");
    assert_eq!(resp.body(), "");
}

#[test]
fn api_route_other_paths_not_found() {
    let c = content(None, Some("nf"), Some("[]"));
    let resp = WebServiceHandler::handle(&get("/api/billing/orders"), &c);
    assert_eq!(resp.status_code(), "404");
    assert_eq!(resp.body(), "nf");
    let resp = WebServiceHandler::handle(&get("/api"), &c);
    assert_eq!(resp.status_code(), "404");
}

#[test]
fn not_found_handler_ignores_request() {
    let c = content(Some("page"), Some("gone"), Some("[]"));
    let resp = PageNotFoundHandler::handle(&get("/"), &c);
    assert_eq!(resp.status_code(), "404");
    assert_eq!(resp.status_text(), "Not Found");
    assert_eq!(resp.body(), "gone");
}

#[test]
fn route_writes_the_response_to_the_stream() {
    let req = get("/greeting");
    let c = content(Some("hello"), None, None);
    let mut sink: Vec<u8> = Vec::new();
    Router::route(req, &c, &mut sink);
    let wire = String::from_utf8(sink).unwrap();
    assert_eq!(
        wire,
        "HTTP/1.1 200 OK\r\nContent-Type:text/html\r\nContent-Length: 5\r\n\r\nhello",
    );
}

#[test]
fn server_keeps_its_address() {
    let server = Server::new("localhost:3000");
    assert_eq!(server.socket_addr(), "localhost:3000");
}
