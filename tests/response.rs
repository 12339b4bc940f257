use forward_proxy::config::Config;
use forward_proxy::response::{connect_established, error_response};
use forward_proxy::text::{eq_ignore_ascii_case_str, parse_uint, starts_with_str};

#[test]
fn forbidden_response_is_exact() {
    let r = error_response(403, "Forbidden");
    let expected = "HTTP/1.1 403 Forbidden\r\nContent-Type: text/plain\r\nContent-Length: 14\r\nConnection: close\r\n\r\n403 Forbidden\n";
    assert_eq!(r, expected.as_bytes().to_vec());
    assert!(r.starts_with(b"HTTP/1.1 403 Forbidden"));
    assert!(r.ends_with(b"403 Forbidden\n"));
    assert_eq!("403 Forbidden\n".len(), 14);
}

#[test]
fn gateway_timeout_response_length() {
    let r = error_response(504, "Gateway Timeout");
    let expected = "HTTP/1.1 504 Gateway Timeout\r\nContent-Type: text/plain\r\nContent-Length: 20\r\nConnection: close\r\n\r\n504 Gateway Timeout\n";
    assert_eq!(r, expected.as_bytes().to_vec());
}

#[test]
fn connect_line_is_exact() {
    assert_eq!(connect_established(), b"HTTP/1.1 200 Connection Established\r\n\r\n".to_vec());
}

#[test]
fn default_config() {
    let c = Config::default();
    assert_eq!(c.listen_addr, "127.0.0.1:8888");
    assert_eq!(c.max_connections, 100);
    assert_eq!(c.blocked_domains_file, "config/blocked_domains.txt");
    assert_eq!(c.log_file, "logs/proxy.log");
    assert_eq!(c.request_timeout_secs, 30);
}

#[test]
fn unsigned_numbers() {
    assert_eq!(parse_uint("0", 10), Some(0));
    assert_eq!(parse_uint("+42", 100), Some(42));
    assert_eq!(parse_uint("65535", 65535), Some(65535));
    assert_eq!(parse_uint("65536", 65535), None);
    assert_eq!(parse_uint("", 10), None);
    assert_eq!(parse_uint("+", 10), None);
    assert_eq!(parse_uint("-1", 10), None);
    assert_eq!(parse_uint("1a", 100), None);
    assert_eq!(parse_uint("18446744073709551615", u64::MAX), Some(u64::MAX));
    assert_eq!(parse_uint("18446744073709551616", u64::MAX), None);
}

#[test]
fn string_helpers() {
    assert!(starts_with_str("https://x", "https://"));
    assert!(!starts_with_str("http", "https://"));
    assert!(eq_ignore_ascii_case_str("CoNNect", "CONNECT"));
    assert!(!eq_ignore_ascii_case_str("CONNEC", "CONNECT"));
    assert!(!eq_ignore_ascii_case_str("C0NNECT", "CONNECT"));
}
