use http::headers::HeaderMap;
use http::httpresponse::HttpResponse;

// ========== construction ==========

#[test]
fn test_default_response() {
    let res = HttpResponse::default();

    assert_eq!(res.version(), "HTTP/1.1");
    assert_eq!(res.status_code(), "200");
    assert_eq!(res.status_text(), "OK");
    assert_eq!(res.body(), "");

    let head_str = res.head();
    assert!(head_str.contains("Content-Type:text/html; charset=utf-8"));
}

#[test]
fn test_new_with_default_200() {
    let res = HttpResponse::new("200", None, None);

    assert_eq!(res.status_code(), "200");
    assert_eq!(res.status_text(), "OK");
}

// ========== status codes ==========

#[test]
fn test_status_400() {
    let res = HttpResponse::new("400", None, None);
    assert_eq!(res.status_code(), "400");
    assert_eq!(res.status_text(), "Bad Request");
}

#[test]
fn test_status_404() {
    let res = HttpResponse::new("404", None, None);
    assert_eq!(res.status_code(), "404");
    assert_eq!(res.status_text(), "Not Found");
}

#[test]
fn test_status_500() {
    let res = HttpResponse::new("500", None, None);
    assert_eq!(res.status_code(), "500");
    assert_eq!(res.status_text(), "Internal Server Error");
}

#[test]
fn test_status_unknown() {
    let res = HttpResponse::new("418", None, None);
    assert_eq!(res.status_code(), "418");
    assert_eq!(res.status_text(), "ERROR");
}

// ========== headers ==========

#[test]
fn test_custom_headers() {
    let mut headers = HeaderMap::new();
    headers.insert("X-Custom-Header", "custom-value");
    headers.insert("Authorization", "Bearer token123");

    let res = HttpResponse::new("200", Some(headers), None);
    let head_str = res.head();

    assert!(head_str.contains("X-Custom-Header:custom-value"));
    assert!(head_str.contains("Authorization:Bearer token123"));
}

#[test]
fn test_empty_headers_become_default() {
    let res = HttpResponse::new("200", None, None);
    let head_str = res.head();
    assert!(head_str.contains("Content-Type:text/html; charset=utf-8"));
}

// ========== body ==========

#[test]
fn test_with_body() {
    let body = "<html><body>Hello</body></html>".to_string();
    let res = HttpResponse::new("200", None, Some(body.clone()));

    assert_eq!(res.body(), body);
}

#[test]
fn test_empty_body() {
    let res = HttpResponse::new("200", None, None);
    assert_eq!(res.body(), "");
}

// ========== response text ==========

#[test]
fn test_into_string_basic() {
    let res = HttpResponse::default();
    let s: String = res.to_http_string();

    assert!(s.starts_with("HTTP/1.1 200 OK\r\n"));
    assert!(s.contains("Content-Type:text/html; charset=utf-8"));
    assert!(s.contains("Content-Length: 0"));
    assert!(s.ends_with("\r\n\r\n"));
}

#[test]
fn test_into_string_with_body() {
    let body = "Hello, World!".to_string();
    let res = HttpResponse::new("200", None, Some(body));
    let s: String = res.to_http_string();

    assert!(s.contains("Content-Length: 13"));
    assert!(s.ends_with("Hello, World!"));
}

#[test]
fn test_into_string_404() {
    let body = "Not Found".to_string();
    let res = HttpResponse::new("404", None, Some(body));
    let s: String = res.to_http_string();

    assert!(s.starts_with("HTTP/1.1 404 Not Found"));
    assert!(s.contains("Content-Length: 9"));
}

#[test]
fn test_full_response_format() {
    let mut headers = HeaderMap::new();
    headers.insert("X-Request-Id", "12345");

    let body = "{\"status\":\"ok\"}".to_string();
    let res = HttpResponse::new("200", Some(headers), Some(body));
    let s: String = res.to_http_string();

    let lines: Vec<&str> = s.split("\r\n").collect();
    assert_eq!(lines[0], "HTTP/1.1 200 OK");
    assert!(lines[1].contains("X-Request-Id:12345") || lines[2].contains("X-Request-Id:12345"));
    let has_content_length = lines.iter().any(|l| l.contains("Content-Length: 15"));
    assert!(has_content_length);

    let empty_line_idx = lines.iter().position(|&l| l.is_empty()).unwrap();
    assert_eq!(lines[empty_line_idx + 1], "{\"status\":\"ok\"}");
}

#[test]
fn test_clone_response() {
    let body = "test body".to_string();
    let res1 = HttpResponse::new("201", None, Some(body));
    let res2 = res1.clone();

    assert_eq!(res1.status_code(), res2.status_code());
    assert_eq!(res1.body(), res2.body());
}

#[test]
fn test_empty_status_code() {
    let res = HttpResponse::new("", None, None);
    assert_eq!(res.status_code(), "");
    assert_eq!(res.status_text(), "ERROR");
}

#[test]
fn test_large_body() {
    let large_body = "x".repeat(10000);
    let res = HttpResponse::new("200", None, Some(large_body.clone()));
    let s: String = res.to_http_string();

    assert!(s.contains("Content-Length: 10000"));
    assert!(s.ends_with(&large_body));
}

#[test]
fn test_unicode_body() {
    let body = "你好，世界！🦀".to_string();
    let res = HttpResponse::new("200", None, Some(body.clone()));

    let byte_len = body.len();
    let s: String = res.to_http_string();

    assert!(s.contains(&format!("Content-Length: {}", byte_len)));
}
