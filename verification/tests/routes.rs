use http_server::request::HttpRequest;
use http_server::response::Response;
use http_server::router::{route, RouteAction, RouteError};
use std::io::Read;

fn request(line: &str, headers: Vec<&str>) -> HttpRequest {
    let lines: Vec<String> = headers.into_iter().map(|h| h.to_string()).collect();
    HttpRequest::new(line, &lines).unwrap()
}

fn respond_bytes(req: &HttpRequest) -> Vec<u8> {
    match route(req).unwrap() {
        RouteAction::Respond(resp) => resp.create_http_response().unwrap(),
        other => panic!("expected a direct response, got {:?}", other),
    }
}

#[test]
fn root_route_is_ok_and_empty() {
    let req = request("GET / HTTP/1.1", vec![]);
    assert_eq!(respond_bytes(&req), b"HTTP/1.1 200 OK\r\n\r\n".to_vec());
}

#[test]
fn echo_route_returns_text_verbatim() {
    let req = request("GET /echo/abc HTTP/1.1", vec![]);
    assert_eq!(
        respond_bytes(&req),
        b"HTTP/1.1 200 OK\r\nContent-Type: text/plain\r\nContent-Length: 3\r\n\r\nabc".to_vec()
    );
}

#[test]
fn echo_route_empty_remainder() {
    let req = request("GET /echo/ HTTP/1.1", vec![]);
    assert_eq!(
        respond_bytes(&req),
        b"HTTP/1.1 200 OK\r\nContent-Type: text/plain\r\nContent-Length: 0\r\n\r\n".to_vec()
    );
}

#[test]
fn echo_route_gzip_round_trips() {
    let req = request(
        "GET /echo/hello-compression HTTP/1.1",
        vec!["Accept-Encoding: gzip"],
    );
    let wire = match route(&req).unwrap() {
        RouteAction::RespondBytes(bytes) => bytes,
        other => panic!("expected wire bytes, got {:?}", other),
    };
    let sep = wire
        .windows(4)
        .position(|w| w == b"\r\n\r\n")
        .expect("header block must end with a blank line");
    let head = String::from_utf8(wire[..sep + 4].to_vec()).unwrap();
    let body = &wire[sep + 4..];
    assert!(head.starts_with("HTTP/1.1 200 OK\r\n"));
    assert!(head.contains("Content-Encoding: gzip\r\n"));
    let expected_len_line = format!("Content-Length: {}\r\n", body.len());
    assert!(head.contains(&expected_len_line));
    let mut decoder = flate2::read::GzDecoder::new(body);
    let mut decompressed = String::new();
    decoder.read_to_string(&mut decompressed).unwrap();
    assert_eq!(decompressed, "hello-compression");
}

#[test]
fn echo_route_gzip_among_other_encodings() {
    let req = request(
        "GET /echo/x HTTP/1.1",
        vec!["Accept-Encoding: deflate, gzip, br"],
    );
    assert!(matches!(
        route(&req).unwrap(),
        RouteAction::RespondBytes(_)
    ));
}

#[test]
fn echo_route_other_encoding_stays_plain() {
    let req = request("GET /echo/x HTTP/1.1", vec!["Accept-Encoding: br"]);
    assert_eq!(
        respond_bytes(&req),
        b"HTTP/1.1 200 OK\r\nContent-Type: text/plain\r\nContent-Length: 1\r\n\r\nx".to_vec()
    );
}

#[test]
fn echo_route_counts_bytes_not_chars() {
    let req = request("GET /echo/héllo HTTP/1.1", vec![]);
    let mut expected = b"HTTP/1.1 200 OK\r\nContent-Type: text/plain\r\nContent-Length: 6\r\n\r\n"
        .to_vec();
    expected.extend_from_slice("héllo".as_bytes());
    assert_eq!(respond_bytes(&req), expected);
}

#[test]
fn gzip_negotiation_uses_last_accept_encoding_header() {
    let req = request(
        "GET /echo/x HTTP/1.1",
        vec!["Accept-Encoding: gzip", "Accept-Encoding: br"],
    );
    assert!(matches!(route(&req).unwrap(), RouteAction::Respond(_)));
}

#[test]
fn user_agent_route_reflects_header() {
    let req = request("GET /user-agent HTTP/1.1", vec!["User-Agent: curl/8.0"]);
    assert_eq!(
        respond_bytes(&req),
        b"HTTP/1.1 200 OK\r\nContent-Type: text/plain\r\nContent-Length: 8\r\n\r\ncurl/8.0".to_vec()
    );
}

#[test]
fn user_agent_route_without_header_is_a_missing_header_error() {
    let req = request("GET /user-agent HTTP/1.1", vec![]);
    match route(&req) {
        Err(RouteError::MissingHeader) => {}
        other => panic!("expected MissingHeader, got {:?}", other),
    }
}

#[test]
fn unmatched_path_is_not_found() {
    let req = request("GET /nope HTTP/1.1", vec![]);
    assert_eq!(
        respond_bytes(&req),
        b"HTTP/1.1 404 Not Found\r\nContent-Length: 0\r\n\r\n".to_vec()
    );
}

#[test]
fn file_get_asks_for_a_read() {
    let req = request("GET /files/missing.txt HTTP/1.1", vec![]);
    match route(&req).unwrap() {
        RouteAction::ReadFile(name) => assert_eq!(name, "missing.txt"),
        other => panic!("expected a file read, got {:?}", other),
    }
}

#[test]
fn missing_file_is_not_found_with_zero_length() {
    let resp = Response::create_file_response(None);
    assert_eq!(
        resp.create_http_response().unwrap(),
        b"HTTP/1.1 404 Not Found\r\nContent-Length: 0\r\n\r\n".to_vec()
    );
}

#[test]
fn file_post_then_read_round_trips_the_body() {
    let req = request(
        "POST /files/foo.txt HTTP/1.1",
        vec!["Content-Length: 5"],
    )
    .with_body("hello".to_string());
    let (name, stored) = match route(&req).unwrap() {
        RouteAction::WriteFile(name, content) => (name, content),
        other => panic!("expected a file write, got {:?}", other),
    };
    assert_eq!(name, "foo.txt");
    assert_eq!(stored, "hello");
    let resp = Response::create_file_response(Some(stored));
    assert_eq!(
        resp.create_http_response().unwrap(),
        b"HTTP/1.1 200 OK\r\nContent-Type: application/octet-stream\r\nContent-Length: 5\r\n\r\nhello"
            .to_vec()
    );
}

#[test]
fn file_post_reports_created() {
    let resp = Response::created();
    assert_eq!(
        resp.create_http_response().unwrap(),
        b"HTTP/1.1 201 Created\r\nContent-Length: 0\r\n\r\n".to_vec()
    );
}

#[test]
fn file_route_with_unknown_method_is_not_found() {
    let req = request("PUT /files/foo.txt HTTP/1.1", vec![]);
    assert_eq!(
        respond_bytes(&req),
        b"HTTP/1.1 404 Not Found\r\nContent-Length: 0\r\n\r\n".to_vec()
    );
}
