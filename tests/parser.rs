use forward_proxy::parser::{extract_path, is_absolute_uri, parse_absolute_uri, parse_host_header, HttpRequest, ParseError};

fn pair(name: &str, value: &str) -> (String, String) {
    (name.to_string(), value.to_string())
}

#[test]
fn round_trip_origin_form() {
    let raw = b"GET /x HTTP/1.1\r\nHost: a.com\r\n\r\n";
    let (req, consumed) = HttpRequest::parse(raw).unwrap();
    assert_eq!(req.method, "GET");
    assert_eq!(req.uri, "/x");
    assert_eq!(req.version, 1);
    assert_eq!(req.host, "a.com");
    assert_eq!(req.port, 80);
    assert_eq!(req.headers, vec![pair("Host", "a.com")]);
    assert!(req.body.is_empty());
    assert_eq!(consumed, raw.len());
    assert_eq!(req.to_bytes(), raw.to_vec());
}

#[test]
fn absolute_uri_overrides_host_header() {
    let raw = b"GET http://example.com:81/p HTTP/1.1\r\nHost: ignored.test\r\n\r\n";
    let (req, _) = HttpRequest::parse(raw).unwrap();
    assert_eq!(req.host, "example.com");
    assert_eq!(req.port, 81);
    assert_eq!(req.uri, "http://example.com:81/p");
    assert_eq!(req.to_bytes(), b"GET /p HTTP/1.1\r\nHost: ignored.test\r\n\r\n".to_vec());
}

#[test]
fn host_header_without_port_defaults_to_80() {
    let (req, _) = HttpRequest::parse(b"GET / HTTP/1.0\r\nHost: example.com\r\n\r\n").unwrap();
    assert_eq!(req.host, "example.com");
    assert_eq!(req.port, 80);
    assert_eq!(req.version, 0);
}

#[test]
fn host_header_is_found_in_any_case() {
    let (req, _) = HttpRequest::parse(b"GET / HTTP/1.1\r\nhOsT: b.org:8080\r\n\r\n").unwrap();
    assert_eq!(req.host, "b.org");
    assert_eq!(req.port, 8080);
}

#[test]
fn missing_host_is_an_error() {
    let r = HttpRequest::parse(b"GET / HTTP/1.1\r\nAccept: */*\r\n\r\n");
    assert_eq!(r.unwrap_err(), ParseError::MissingHost);
}

#[test]
fn bad_port_is_an_error() {
    let r = HttpRequest::parse(b"GET / HTTP/1.1\r\nHost: a.com:99999\r\n\r\n");
    assert_eq!(r.unwrap_err(), ParseError::InvalidPort);
    let r = HttpRequest::parse(b"GET / HTTP/1.1\r\nHost: a.com:http\r\n\r\n");
    assert_eq!(r.unwrap_err(), ParseError::InvalidPort);
}

#[test]
fn incomplete_head_is_malformed() {
    let r = HttpRequest::parse(b"GET / HTTP/1.1\r\nHost: a.com\r\n");
    assert_eq!(r.unwrap_err(), ParseError::Malformed);
}

#[test]
fn garbage_is_malformed() {
    let r = HttpRequest::parse(b"\x01\x02 nonsense\r\n\r\n");
    assert_eq!(r.unwrap_err(), ParseError::Malformed);
}

#[test]
fn body_is_sliced_to_content_length() {
    let raw = b"POST /f HTTP/1.1\r\nHost: a.com\r\nContent-Length: 3\r\n\r\nabcdef";
    let (req, consumed) = HttpRequest::parse(raw).unwrap();
    assert_eq!(req.body, b"abc".to_vec());
    assert_eq!(consumed, raw.len() - 3);
}

#[test]
fn truncated_body_is_tolerated() {
    let raw = b"POST /f HTTP/1.1\r\nHost: a.com\r\ncontent-length: 10\r\n\r\nab";
    let (req, consumed) = HttpRequest::parse(raw).unwrap();
    assert_eq!(req.body, b"ab".to_vec());
    assert_eq!(consumed, raw.len());
}

#[test]
fn unreadable_content_length_means_no_body() {
    let raw = b"POST /f HTTP/1.1\r\nHost: a.com\r\nContent-Length: many\r\n\r\nab";
    let (req, consumed) = HttpRequest::parse(raw).unwrap();
    assert!(req.body.is_empty());
    assert_eq!(consumed, raw.len() - 2);
}

#[test]
fn serialization_keeps_header_order_case_and_body() {
    let req = HttpRequest {
        method: "POST".to_string(),
        uri: "https://secure.example/a/b?q=1".to_string(),
        version: 1,
        host: "secure.example".to_string(),
        port: 443,
        headers: vec![pair("X-One", "1"), pair("host", "secure.example"), pair("Content-Length", "2")],
        body: b"hi".to_vec(),
    };
    let expected = b"POST /a/b?q=1 HTTP/1.1\r\nX-One: 1\r\nhost: secure.example\r\nContent-Length: 2\r\n\r\nhi";
    assert_eq!(req.to_bytes(), expected.to_vec());
}

#[test]
fn absolute_uri_without_path_serializes_root() {
    let req = HttpRequest {
        method: "GET".to_string(),
        uri: "http://a.com:81".to_string(),
        version: 0,
        host: "a.com".to_string(),
        port: 81,
        headers: vec![],
        body: vec![],
    };
    assert_eq!(req.to_bytes(), b"GET / HTTP/1.0\r\n\r\n".to_vec());
}

#[test]
fn connect_request_parses_authority_form() {
    let (req, _) = HttpRequest::parse(b"CONNECT a.com:443 HTTP/1.1\r\nHost: a.com:443\r\n\r\n").unwrap();
    assert_eq!(req.method, "CONNECT");
    assert_eq!(req.host, "a.com");
    assert_eq!(req.port, 443);
}

#[test]
fn path_extraction() {
    assert_eq!(extract_path("http://a.com/x/y"), Some("/x/y"));
    assert_eq!(extract_path("https://a.com"), Some("/"));
    assert_eq!(extract_path("/plain"), None);
    assert!(is_absolute_uri("https://a"));
    assert!(!is_absolute_uri("ftp://a"));
}

#[test]
fn authority_splitting() {
    assert_eq!(parse_host_header("h:1"), Ok(("h".to_string(), 1)));
    assert_eq!(parse_host_header("h"), Ok(("h".to_string(), 80)));
    assert_eq!(parse_host_header("[::1]:8080"), Ok(("[::1]".to_string(), 8080)));
    assert_eq!(parse_host_header("h:+7"), Ok(("h".to_string(), 7)));
    assert_eq!(parse_host_header("h:"), Err(ParseError::InvalidPort));
    assert_eq!(parse_absolute_uri("https://s.io:8443/z"), Ok(("s.io".to_string(), 8443)));
    assert_eq!(parse_absolute_uri("/z"), Err(ParseError::Malformed));
}

#[test]
fn invalid_utf8_header_values_are_replaced() {
    let (req, _) = HttpRequest::parse(b"GET / HTTP/1.1\r\nHost: a.com\r\nX-Raw: a\xffb\r\n\r\n").unwrap();
    assert_eq!(req.headers[1], pair("X-Raw", "a\u{FFFD}b"));
}

#[test]
fn request_from_a_head_already_read() {
    let buffer = b"HEADxyz";
    let headers = vec![pair("HOST", "q.net:8000"), pair("Content-Length", "2")];
    let (req, consumed) = HttpRequest::from_head(buffer, "PUT".to_string(), "/u".to_string(), 1, headers, 4).unwrap();
    assert_eq!(req.host, "q.net");
    assert_eq!(req.port, 8000);
    assert_eq!(req.body, b"xy".to_vec());
    assert_eq!(consumed, 6);
    let later_host_wins = vec![pair("Host", "first.io"), pair("host", "second.io:9")];
    let (req, _) = HttpRequest::from_head(buffer, "GET".to_string(), "/".to_string(), 1, later_host_wins, 4).unwrap();
    assert_eq!(req.host, "second.io");
    assert_eq!(req.port, 9);
    let none = HttpRequest::from_head(buffer, "GET".to_string(), "/".to_string(), 1, vec![], 4);
    assert_eq!(none.unwrap_err(), ParseError::MissingHost);
}
