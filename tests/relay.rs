use forward_proxy::filter::{Filter, IpKey};
use forward_proxy::parser::{HttpRequest, ParseError};
use forward_proxy::reader::ReadError;
use forward_proxy::relay::{failure_response, route, Direction, Failure, Relay, Route, TransferAction, TransferEvent};
use forward_proxy::response::error_response;

fn request(method: &str, host: &str) -> HttpRequest {
    HttpRequest {
        method: method.to_string(),
        uri: "/".to_string(),
        version: 1,
        host: host.to_string(),
        port: 80,
        headers: vec![],
        body: vec![],
    }
}

#[test]
fn routes_by_filter_then_method() {
    let mut f = Filter::new();
    f.add_entry("evil.com", None);
    assert_eq!(route(&request("GET", "www.evil.com"), &f, None), Route::Blocked);
    assert_eq!(route(&request("CONNECT", "evil.com"), &f, None), Route::Blocked);
    assert_eq!(route(&request("connect", "good.com"), &f, None), Route::Tunnel);
    assert_eq!(route(&request("GET", "good.com"), &f, None), Route::Forward);
    assert_eq!(route(&request("GET", "10.0.0.1"), &f, Some(IpKey::V4(0x0A00_0001))), Route::Forward);
}

#[test]
fn read_failures_get_no_response() {
    assert_eq!(failure_response(Failure::Read(ReadError::RequestTooLarge)), None);
    assert_eq!(failure_response(Failure::Read(ReadError::ConnectionClosedEarly)), None);
    assert_eq!(failure_response(Failure::Read(ReadError::RequestTimeout)), None);
    assert_eq!(failure_response(Failure::RelayFailed), None);
}

#[test]
fn other_failures_get_their_status() {
    assert_eq!(failure_response(Failure::Malformed(ParseError::MissingHost)), Some(error_response(400, "Bad Request")));
    assert_eq!(failure_response(Failure::HostBlocked), Some(error_response(403, "Forbidden")));
    assert_eq!(failure_response(Failure::UpstreamConnectFailed), Some(error_response(502, "Bad Gateway")));
    assert_eq!(failure_response(Failure::UpstreamConnectTimeout), Some(error_response(504, "Gateway Timeout")));
}

#[test]
fn tunnel_closes_when_either_side_ends() {
    let mut t = Relay::new();
    assert_eq!(t.on_event(Direction::ClientToUpstream, TransferEvent::Received(5)), TransferAction::Send);
    assert_eq!(t.on_event(Direction::ClientToUpstream, TransferEvent::Sent(5)), TransferAction::ReadAgain);
    assert_eq!(t.on_event(Direction::UpstreamToClient, TransferEvent::Received(0)), TransferAction::Close);
    assert!(!t.is_open());
    assert_eq!(t.on_event(Direction::ClientToUpstream, TransferEvent::Received(7)), TransferAction::Close);
    assert_eq!(t.on_event(Direction::ClientToUpstream, TransferEvent::Sent(7)), TransferAction::Close);
    assert_eq!(t.bytes_to_upstream(), 5);
    assert_eq!(t.bytes_to_client(), 0);
}

#[test]
fn failures_close_the_relay() {
    let mut t = Relay::new();
    assert_eq!(t.on_event(Direction::UpstreamToClient, TransferEvent::WriteFailed), TransferAction::Close);
    assert!(!t.is_open());
    let mut t = Relay::new();
    assert_eq!(t.on_event(Direction::ClientToUpstream, TransferEvent::ReadFailed), TransferAction::Close);
    assert!(!t.is_open());
}

#[test]
fn forwarding_counts_bytes_sent_to_client() {
    let mut t = Relay::new();
    for n in [100usize, 20, 3] {
        assert_eq!(t.on_event(Direction::UpstreamToClient, TransferEvent::Received(n)), TransferAction::Send);
        assert_eq!(t.on_event(Direction::UpstreamToClient, TransferEvent::Sent(n)), TransferAction::ReadAgain);
    }
    assert_eq!(t.on_event(Direction::UpstreamToClient, TransferEvent::Received(0)), TransferAction::Close);
    assert_eq!(t.bytes_to_client(), 123);
    assert_eq!(t.bytes_to_upstream(), 0);
}

#[test]
fn byte_counts_hold_at_the_maximum() {
    let mut t = Relay::new();
    t.on_event(Direction::UpstreamToClient, TransferEvent::Sent(usize::MAX));
    t.on_event(Direction::UpstreamToClient, TransferEvent::Sent(usize::MAX));
    assert_eq!(t.bytes_to_client(), u64::MAX);
}
