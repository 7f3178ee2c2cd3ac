use http::httprequest::{HttpMethod, HttpReSource, HttpRequest, HttpVersion};

// ========== HttpMethod ==========

#[test]
fn test_http_method_from_get() {
    assert_eq!(HttpMethod::from("GET"), HttpMethod::Get);
}

#[test]
fn test_http_method_from_post() {
    assert_eq!(HttpMethod::from("POST"), HttpMethod::Post);
}

#[test]
fn test_http_method_from_unknown() {
    assert_eq!(HttpMethod::from("DELETE"), HttpMethod::Uninitialized);
    assert_eq!(HttpMethod::from("PUT"), HttpMethod::Uninitialized);
    assert_eq!(HttpMethod::from(""), HttpMethod::Uninitialized);
}

// ========== HttpVersion ==========

#[test]
fn test_http_version_from_v1_1() {
    assert_eq!(HttpVersion::from("HTTP/1.1"), HttpVersion::V1_1);
}

#[test]
fn test_http_version_from_unknown() {
    assert_eq!(HttpVersion::from("HTTP/2.0"), HttpVersion::Uninitialized);
    assert_eq!(HttpVersion::from("HTTP/1.0"), HttpVersion::Uninitialized);
    assert_eq!(HttpVersion::from(""), HttpVersion::Uninitialized);
}

// ========== HttpRequest ==========

fn make_get_request() -> String {
    "GET /index.html HTTP/1.1\r\n\
     Host: localhost:8080\r\n\
     User-Agent: curl/7.64.1\r\n\
     Accept: */*\r\n\
     \r\n"
        .to_string()
}

fn make_post_request() -> String {
    "POST /api/users HTTP/1.1\r\n\
     Host: api.example.com\r\n\
     Content-Type: application/json\r\n\
     Content-Length: 27\r\n\
     \r\n\
     {\"name\":\"tom\",\"age\":25}"
        .to_string()
}

#[test]
fn test_parse_simple_get_request() {
    let request = HttpRequest::from(make_get_request());
    let head = request.head.unwrap();
    assert_eq!(request.method, HttpMethod::Get);
    assert_eq!(request.version, HttpVersion::V1_1);

    match request.resource {
        HttpReSource::Path(path) => assert_eq!(path, "/index.html"),
    }

    assert_eq!(head.get("Host"), Some(&"localhost:8080".to_string()));
    assert_eq!(head.get("User-Agent"), Some(&"curl/7.64.1".to_string()));
    assert_eq!(head.get("Accept"), Some(&"*/*".to_string()));

    assert_eq!(request.body.unwrap(), "");
}

#[test]
fn test_parse_post_request_with_body() {
    let request = HttpRequest::from(make_post_request());
    let head = request.head.unwrap();
    assert_eq!(request.method, HttpMethod::Post);

    match &request.resource {
        HttpReSource::Path(path) => assert_eq!(path, "/api/users"),
    }

    assert_eq!(head.get("Content-Type"), Some(&"application/json".to_string()));
    assert_eq!(request.body.unwrap(), "{\"name\":\"tom\",\"age\":25}");
}

#[test]
fn test_parse_request_with_empty_headers() {
    let req_str = "GET / HTTP/1.1\r\n\r\n".to_string();
    let request = HttpRequest::from(req_str);
    let head = request.head.unwrap();
    assert_eq!(request.method, HttpMethod::Get);
    assert!(head.is_empty());
    assert_eq!(request.body.unwrap(), "");
}

#[test]
fn test_parse_request_with_multiple_colons_in_header() {
    let req_str = "GET / HTTP/1.1\r\n\
                   Date: Mon, 23 May 2022 22:38:34 GMT\r\n\
                   \r\n"
        .to_string();

    let request = HttpRequest::from(req_str);
    let head = request.head.unwrap();
    assert_eq!(
        head.get("Date"),
        Some(&"Mon, 23 May 2022 22:38:34 GMT".to_string())
    );
}

#[test]
fn test_parse_empty_string() {
    let request = HttpRequest::from("".to_string());
    let head = request.head.unwrap();
    assert_eq!(request.method, HttpMethod::Uninitialized);
    assert_eq!(request.version, HttpVersion::Uninitialized);
    assert!(head.is_empty());
}

#[test]
fn test_parse_only_whitespace() {
    let request = HttpRequest::from("   \n   \n   ".to_string());

    assert_eq!(request.method, HttpMethod::Uninitialized);
    assert_eq!(request.body.unwrap(), "");
}

#[test]
fn test_parse_multiline_body() {
    let req_str = "POST /upload HTTP/1.1\r\n\
                   Content-Length: 20\r\n\
                   \r\n\
                   line1\r\n\
                   line2\r\n\
                   line3"
        .to_string();

    let request = HttpRequest::from(req_str);

    assert_eq!(request.body.unwrap(), "line1\nline2\nline3");
}
