use http::handler::{PageNotFoundHandler, StaticPageHandler, WebServiceHandler};
use http::headers::HeaderMap;
use http::httprequest::{HttpMethod, HttpReSource, HttpRequest, HttpVersion};
use http::httpresponse::HttpResponse;
use http::router::{Route, Router};
use http::server::Server;

fn request(text: &str) -> HttpRequest {
    HttpRequest::parse(text).expect("readable request")
}

fn path(req: &HttpRequest) -> String {
    match &req.resource {
        HttpReSource::Path(p) => p.clone(),
    }
}

// ---------- header map: what a read gives back of a write ----------

#[test]
fn header_read_after_write() {
    let mut h = HeaderMap::new();
    assert!(h.is_empty());
    h.insert("A", "1");
    h.insert("B", "2");
    assert_eq!(h.get("A"), Some(&"1".to_string()));
    assert_eq!(h.get("B"), Some(&"2".to_string()));
    assert_eq!(h.get("C"), None);
    assert_eq!(h.len(), 2);
}

#[test]
fn header_overwrite_keeps_place_and_others() {
    let mut h = HeaderMap::new();
    h.insert("A", "1");
    h.insert("B", "2");
    h.insert("A", "3");
    assert_eq!(h.len(), 2);
    assert_eq!(h.get("A"), Some(&"3".to_string()));
    assert_eq!(h.get("B"), Some(&"2".to_string()));
    assert_eq!(h.to_text(), "A:3\r\nB:2\r\n");
}

#[test]
fn header_copy_is_equal() {
    let mut h = HeaderMap::new();
    h.insert("K", "V");
    let c = h.clone();
    assert_eq!(c, h);
    assert_eq!(c.to_text(), "K:V\r\n");
}

// ---------- request reading ----------

#[test]
fn crlf_reads_as_lf() {
    let a = request("GET /x HTTP/1.1\r\nHost: h\r\n\r\nb1\r\nb2");
    let b = request("GET /x HTTP/1.1\nHost: h\n\nb1\nb2");
    assert_eq!(a.method, b.method);
    assert_eq!(a.version, b.version);
    assert_eq!(path(&a), path(&b));
    assert_eq!(a.head, b.head);
    assert_eq!(a.body, b.body);
    assert_eq!(a.body.unwrap(), "b1\nb2");
}

#[test]
fn only_first_http_line_is_request_line() {
    let r = request("POST /first HTTP/1.1\r\nGET /second HTTP/1.1\r\n\r\n");
    assert_eq!(r.method, HttpMethod::Post);
    assert_eq!(path(&r), "/first");
}

#[test]
fn short_request_line_is_refused() {
    assert!(HttpRequest::parse("HTTP/1.1\r\n\r\n").is_none());
    assert!(HttpRequest::parse("GET HTTP/1.1\r\n").is_none());
    assert!(HttpRequest::parse("GET / HTTP/1.1\r\n").is_some());
}

#[test]
fn request_line_may_come_after_headers() {
    let r = request("Host: h\r\nGET /late HTTP/1.1\r\n");
    assert_eq!(r.method, HttpMethod::Get);
    assert_eq!(path(&r), "/late");
    assert_eq!(r.head.unwrap().get("Host"), Some(&"h".to_string()));
}

#[test]
fn headers_after_blank_line_are_body() {
    let r = request("GET / HTTP/1.1\r\nA: 1\r\n\r\nB: 2\r\n\r\nC");
    let head = r.head.unwrap();
    assert_eq!(head.get("A"), Some(&"1".to_string()));
    assert_eq!(head.get("B"), None);
    assert_eq!(r.body.unwrap(), "B: 2\n\nC");
}

#[test]
fn header_name_and_value_are_trimmed_and_overwritten() {
    let r = request("GET / HTTP/1.1\r\n  Key :  v1  \r\nKey: v2:x\r\n");
    let head = r.head.unwrap();
    assert_eq!(head.len(), 1);
    assert_eq!(head.get("Key"), Some(&"v2:x".to_string()));
}

#[test]
fn unknown_version_and_method() {
    let r = request("PATCH /p HTTP/2.0\r\n");
    assert_eq!(r.method, HttpMethod::Uninitialized);
    assert_eq!(r.version, HttpVersion::Uninitialized);
    assert_eq!(path(&r), "/p");
}

#[test]
fn words_split_on_any_white_space() {
    let r = request("GET\t/tab   HTTP/1.1\r\n");
    assert_eq!(r.method, HttpMethod::Get);
    assert_eq!(path(&r), "/tab");
    assert_eq!(r.version, HttpVersion::V1_1);
}

#[test]
fn empty_body_line_first_is_skipped() {
    let r = request("GET / HTTP/1.1\r\n\r\n\r\nx\r\n\r\ny");
    assert_eq!(r.body.unwrap(), "x\n\ny");
}

// ---------- response text ----------

#[test]
fn exact_response_text() {
    let mut h = HeaderMap::new();
    h.insert("X", "1");
    let r = HttpResponse::new("404", Some(h), Some("abc".to_string()));
    assert_eq!(
        r.to_http_string(),
        "HTTP/1.1 404 Not Found\r\nX:1\r\nContent-Length: 3\r\n\r\nabc"
    );
}

#[test]
fn default_is_new_200() {
    assert_eq!(HttpResponse::default(), HttpResponse::new("200", None, None));
    assert_eq!(
        HttpResponse::default().to_http_string(),
        "HTTP/1.1 200 OK\r\nContent-Type:text/html; charset=utf-8\r\nContent-Length: 0\r\n\r\n"
    );
}

#[test]
fn content_length_counts_bytes() {
    let r = HttpResponse::new("200", None, Some("é".repeat(1234)));
    assert!(r.to_http_string().contains("Content-Length: 2468\r\n"));
}

// ---------- routing and handlers ----------

#[test]
fn routes() {
    assert_eq!(Router::route(&request("GET /api/x HTTP/1.1\r\n")), Route::WebService);
    assert_eq!(Router::route(&request("GET /index.html HTTP/1.1\r\n")), Route::StaticPage);
    assert_eq!(Router::route(&request("GET / HTTP/1.1\r\n")), Route::StaticPage);
    assert_eq!(Router::route(&request("POST /api/x HTTP/1.1\r\n")), Route::PageNotFound);
    assert_eq!(Router::route(&request("")), Route::PageNotFound);
}

#[test]
fn page_names() {
    assert_eq!(StaticPageHandler::page_name(&request("GET / HTTP/1.1\r\n")), "index.html");
    assert_eq!(StaticPageHandler::page_name(&request("GET /health HTTP/1.1\r\n")), "health.html");
    assert_eq!(StaticPageHandler::page_name(&request("GET /style.css HTTP/1.1\r\n")), "style.css");
}

#[test]
fn static_responses() {
    let css = StaticPageHandler::respond(&request("GET /a.css HTTP/1.1\r\n"), Some("b{}".to_string()))
        .unwrap();
    assert_eq!(css.head(), "Content-Type:text/css\r\n");
    assert_eq!(css.body(), "b{}");
    let js = StaticPageHandler::respond(&request("GET /a.js HTTP/1.1\r\n"), Some("x".to_string()))
        .unwrap();
    assert_eq!(js.head(), "Content-Type:application/javascript\r\n");
    let html = StaticPageHandler::respond(&request("GET /a HTTP/1.1\r\n"), Some("x".to_string()))
        .unwrap();
    assert_eq!(html.head(), "Content-Type:text/html\r\n");
    assert!(StaticPageHandler::respond(&request("GET /missing HTTP/1.1\r\n"), None).is_none());
    let index = StaticPageHandler::respond(&request("GET / HTTP/1.1\r\n"), None).unwrap();
    assert_eq!(index.status_code(), "200");
    assert_eq!(index.body(), "");
    assert_eq!(index.head(), "Content-Type:text/html; charset=utf-8\r\n");
}

#[test]
fn not_found_response() {
    let r = PageNotFoundHandler::respond(Some("gone".to_string()));
    assert_eq!(r.status_code(), "404");
    assert_eq!(r.status_text(), "Not Found");
    assert_eq!(r.body(), "gone");
}

#[test]
fn orders_requests() {
    assert!(WebServiceHandler::serves_orders(&request("GET /api/shipping/orders HTTP/1.1\r\n")));
    assert!(!WebServiceHandler::serves_orders(&request("GET /api/shipping/other HTTP/1.1\r\n")));
    assert!(!WebServiceHandler::serves_orders(&request("GET /api/other HTTP/1.1\r\n")));
    let r = WebServiceHandler::respond_orders("[]".to_string());
    assert_eq!(r.to_http_string(), "HTTP/1.1 200 OK\r\nContent-Type:application/json\r\nContent-Length: 2\r\n\r\n[]");
}

#[test]
fn server_address() {
    let s = Server::new("127.0.0.1:3000");
    assert_eq!(s.socket_addr(), "127.0.0.1:3000");
}
