use http_server::request::{HttpRequest, HttpRequestMethod, ParseError};
use http_server::response::Response;
use http_server::text::{parse_content_length, to_decimal, tokenize, trim};

fn lines(headers: Vec<&str>) -> Vec<String> {
    headers.into_iter().map(|h| h.to_string()).collect()
}

#[test]
fn method_tokens_parse() {
    assert_eq!(
        HttpRequestMethod::from_string("GET"),
        Some(HttpRequestMethod::Get)
    );
    assert_eq!(
        HttpRequestMethod::from_string("POST"),
        Some(HttpRequestMethod::Post)
    );
    assert_eq!(HttpRequestMethod::from_string("PUT"), None);
    assert_eq!(HttpRequestMethod::from_string("get"), None);
}

#[test]
fn short_request_line_is_malformed() {
    let r = HttpRequest::new("GET /", &lines(vec![]));
    assert_eq!(r.unwrap_err(), ParseError::MalformedRequestLine);
    let r = HttpRequest::new("", &lines(vec![]));
    assert_eq!(r.unwrap_err(), ParseError::MalformedRequestLine);
}

#[test]
fn request_line_splits_into_three_tokens() {
    let r = HttpRequest::new("GET /path HTTP/1.1", &lines(vec![])).unwrap();
    assert_eq!(r.method, Some(HttpRequestMethod::Get));
    assert_eq!(r.path, "/path");
    assert_eq!(r.version, "HTTP/1.1");
    assert_eq!(r.body, "");
}

#[test]
fn request_line_with_extra_whitespace_still_parses() {
    let r = HttpRequest::new("  POST   /x\tHTTP/1.1  ", &lines(vec![])).unwrap();
    assert_eq!(r.method, Some(HttpRequestMethod::Post));
    assert_eq!(r.path, "/x");
    assert_eq!(r.version, "HTTP/1.1");
}

#[test]
fn extra_request_line_tokens_are_ignored() {
    let r = HttpRequest::new("GET /path HTTP/1.1 extra junk", &lines(vec![])).unwrap();
    assert_eq!(r.method, Some(HttpRequestMethod::Get));
    assert_eq!(r.path, "/path");
    assert_eq!(r.version, "HTTP/1.1");
}

#[test]
fn header_values_are_trimmed() {
    let r = HttpRequest::new(
        "GET / HTTP/1.1",
        &lines(vec!["Host:   localhost:4221  ", "Weird-Line-Without-Colon"]),
    )
    .unwrap();
    assert_eq!(r.headers.len(), 1);
    assert_eq!(r.header_value("Host"), Some("localhost:4221".to_string()));
    assert_eq!(r.header_value("Missing"), None);
}

#[test]
fn duplicate_headers_last_write_wins() {
    let r = HttpRequest::new(
        "GET / HTTP/1.1",
        &lines(vec!["X-Tag: first", "X-Tag: second"]),
    )
    .unwrap();
    assert_eq!(r.header_value("X-Tag"), Some("second".to_string()));
}

#[test]
fn body_length_comes_from_content_length_on_post() {
    let r = HttpRequest::new("POST /files/a HTTP/1.1", &lines(vec!["Content-Length: 5"])).unwrap();
    assert_eq!(r.body_length(), 5);
}

#[test]
fn body_length_is_zero_without_content_length() {
    let r = HttpRequest::new("POST /files/a HTTP/1.1", &lines(vec![])).unwrap();
    assert_eq!(r.body_length(), 0);
}

#[test]
fn body_length_is_zero_for_get() {
    let r = HttpRequest::new("GET /files/a HTTP/1.1", &lines(vec!["Content-Length: 5"])).unwrap();
    assert_eq!(r.body_length(), 0);
}

#[test]
fn malformed_content_length_is_leniently_zero() {
    let r = HttpRequest::new(
        "POST /files/a HTTP/1.1",
        &lines(vec!["Content-Length: five"]),
    )
    .unwrap();
    assert_eq!(r.body_length(), 0);
}

#[test]
fn content_length_parsing_is_exact() {
    assert_eq!(parse_content_length("0"), 0);
    assert_eq!(parse_content_length("123"), 123);
    assert_eq!(parse_content_length(""), 0);
    assert_eq!(parse_content_length("12a"), 0);
    assert_eq!(parse_content_length("-1"), 0);
    assert_eq!(parse_content_length(" 7"), 0);
    assert_eq!(parse_content_length("99999999999999999999999999999"), 0);
}

#[test]
fn decimal_rendering_is_exact() {
    assert_eq!(to_decimal(0), "0");
    assert_eq!(to_decimal(7), "7");
    assert_eq!(to_decimal(10), "10");
    assert_eq!(to_decimal(12345), "12345");
}

#[test]
fn tokenizer_splits_on_whitespace_runs() {
    assert_eq!(tokenize("a b  c"), vec!["a", "b", "c"]);
    assert_eq!(tokenize("  a\t"), vec!["a"]);
    assert_eq!(tokenize(""), Vec::<String>::new());
    assert_eq!(tokenize(" \t "), Vec::<String>::new());
}

#[test]
fn trim_removes_edges_only() {
    assert_eq!(trim("  a b  "), "a b");
    assert_eq!(trim("ab"), "ab");
    assert_eq!(trim("  \t"), "");
}

#[test]
fn response_builder_normalizes_header_block() {
    let r = Response::new(
        "200".to_string(),
        "OK".to_string(),
        "X-One: 1".to_string(),
        "".to_string(),
    );
    assert_eq!(
        r.create_http_response().unwrap(),
        b"HTTP/1.1 200 OK\r\nX-One: 1\r\n\r\n".to_vec()
    );
}

#[test]
fn response_builder_keeps_terminated_header_block() {
    let mut r = Response::new(
        "200".to_string(),
        "OK".to_string(),
        "X-One: 1\r\n".to_string(),
        "".to_string(),
    );
    r.add_header("X-Two", "2");
    r.set_body("hi".to_string());
    assert_eq!(
        r.create_http_response().unwrap(),
        b"HTTP/1.1 200 OK\r\nX-One: 1\r\nX-Two: 2\r\n\r\nhi".to_vec()
    );
}
