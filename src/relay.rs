use vstd::prelude::*;
use crate::filter::{blocked, Filter, IpKey};
use crate::parser::{HttpRequest, ParseError};
use crate::reader::ReadError;
use crate::response::{error_response, error_response_bytes};
use crate::text::{eq_ignore_ascii_case_str, eq_ignore_case};

verus! {

/// Where a parsed request goes.
#[derive(Clone, Copy, Debug, PartialEq, Eq, Structural)]
pub enum Route {
    /// The host is blocked: answer 403.
    Blocked,
    /// A `CONNECT` request: open a tunnel.
    Tunnel,
    /// Any other request: forward it and relay the response.
    Forward,
}

pub open spec fn connect_method() -> Seq<char> {
    seq!['C', 'O', 'N', 'N', 'E', 'C', 'T']
}

/// A blocked host comes first; then `CONNECT`, in any ASCII case, opens a tunnel.
pub open spec fn route_of(is_blocked: bool, method: Seq<char>) -> Route {
    if is_blocked {
        Route::Blocked
    } else if eq_ignore_case(method, connect_method()) {
        Route::Tunnel
    } else {
        Route::Forward
    }
}

/// Chooses how to handle `request`. `host_ip` is the address that the request's
/// host reads as, where it is an IP literal.
pub fn route(request: &HttpRequest, filter: &Filter, host_ip: Option<IpKey>) -> (r: Route)
    ensures
        r == route_of(blocked(filter@.0, filter@.1, request.host@, host_ip), request.method@),
{
    if filter.is_blocked(request.host.as_str(), host_ip) {
        return Route::Blocked;
    }
    proof {
        reveal_strlit("CONNECT");
        assert("CONNECT"@ =~= connect_method());
    }
    if eq_ignore_ascii_case_str(request.method.as_str(), "CONNECT") {
        Route::Tunnel
    } else {
        Route::Forward
    }
}

/// Why the handling of a connection ended early.
#[derive(Clone, Copy, Debug, PartialEq, Eq, Structural)]
pub enum Failure {
    /// No complete request head could be read.
    Read(ReadError),
    /// The request could not be parsed.
    Malformed(ParseError),
    /// The target host is blocked.
    HostBlocked,
    /// The upstream connection was refused or failed.
    UpstreamConnectFailed,
    /// The upstream connection did not open in time.
    UpstreamConnectTimeout,
    /// Reading or writing failed while bytes were being relayed.
    RelayFailed,
}

/// The status code and reason sent for a failure, where one is sent at all.
pub open spec fn failure_status(f: Failure) -> Option<(u16, Seq<char>)> {
    match f {
        Failure::Read(_) => None,
        Failure::Malformed(_) => Some((400u16, "Bad Request"@)),
        Failure::HostBlocked => Some((403u16, "Forbidden"@)),
        Failure::UpstreamConnectFailed => Some((502u16, "Bad Gateway"@)),
        Failure::UpstreamConnectTimeout => Some((504u16, "Gateway Timeout"@)),
        Failure::RelayFailed => None,
    }
}

/// The response owed to the client for a failure: none where the read stage failed
/// or bytes were already in flight, else the fixed-shape error response.
pub fn failure_response(f: Failure) -> (r: Option<Vec<u8>>)
    ensures
        match failure_status(f) {
            None => r is None,
            Some((code, text)) => r is Some && r->Some_0@ == error_response_bytes(code, text),
        },
{
    match f {
        Failure::Read(_) => None,
        Failure::Malformed(_) => Some(error_response(400, "Bad Request")),
        Failure::HostBlocked => Some(error_response(403, "Forbidden")),
        Failure::UpstreamConnectFailed => Some(error_response(502, "Bad Gateway")),
        Failure::UpstreamConnectTimeout => Some(error_response(504, "Gateway Timeout")),
        Failure::RelayFailed => None,
    }
}

/// One direction of a relay.
#[derive(Clone, Copy, Debug, PartialEq, Eq, Structural)]
pub enum Direction {
    ClientToUpstream,
    UpstreamToClient,
}

/// What one I/O operation of a relay direction reported.
#[derive(Clone, Copy, Debug, PartialEq, Eq, Structural)]
pub enum TransferEvent {
    /// A read returned this many bytes; 0 means end of stream.
    Received(usize),
    /// A read failed.
    ReadFailed,
    /// This many bytes were written to the other side.
    Sent(usize),
    /// A write failed.
    WriteFailed,
}

/// What a relay direction does next.
#[derive(Clone, Copy, Debug, PartialEq, Eq, Structural)]
pub enum TransferAction {
    /// Write the bytes just read to the other side.
    Send,
    /// Read again.
    ReadAgain,
    /// Close the whole relay, both directions.
    Close,
}

/// A relay's state: whether it is open, and the bytes sent each way.
pub type RelayView = (bool, nat, nat);

/// The action for an event: reads of data are sent on, writes lead to the next read,
/// and end of stream or any failure closes the relay, as does every event once it is
/// closed.
pub open spec fn relay_action(s: RelayView, event: TransferEvent) -> TransferAction {
    if !s.0 {
        TransferAction::Close
    } else {
        match event {
            TransferEvent::Received(n) => if n == 0 {
                TransferAction::Close
            } else {
                TransferAction::Send
            },
            TransferEvent::Sent(_) => TransferAction::ReadAgain,
            _ => TransferAction::Close,
        }
    }
}

/// `a + b`, held at `u64::MAX`.
pub open spec fn add_capped(a: nat, b: nat) -> nat {
    if a + b > u64::MAX {
        u64::MAX as nat
    } else {
        a + b
    }
}

/// The state after an event: a write adds its bytes to its direction's count (held at
/// `u64::MAX`), and an event whose action is to close leaves the relay closed.
pub open spec fn relay_next(s: RelayView, dir: Direction, event: TransferEvent) -> RelayView {
    if relay_action(s, event) == TransferAction::Close {
        (false, s.1, s.2)
    } else {
        match event {
            TransferEvent::Sent(n) => match dir {
                Direction::ClientToUpstream => (true, add_capped(s.1, n as nat), s.2),
                Direction::UpstreamToClient => (true, s.1, add_capped(s.2, n as nat)),
            },
            _ => s,
        }
    }
}

/// The decisions of a relay: a tunnel uses both directions, forwarding uses the
/// upstream-to-client one.
#[derive(Debug)]
pub struct Relay {
    open: bool,
    to_upstream: u64,
    to_client: u64,
}

impl View for Relay {
    type V = RelayView;

    closed spec fn view(&self) -> RelayView {
        (self.open, self.to_upstream as nat, self.to_client as nat)
    }
}

impl Relay {
    /// An open relay that has sent nothing.
    pub fn new() -> (r: Relay)
        ensures
            r@ == (true, 0nat, 0nat),
    {
        Relay { open: true, to_upstream: 0, to_client: 0 }
    }

    pub fn is_open(&self) -> (r: bool)
        ensures
            r == self@.0,
    {
        self.open
    }

    /// Bytes sent from the client to upstream.
    pub fn bytes_to_upstream(&self) -> (r: u64)
        ensures
            r as nat == self@.1,
    {
        self.to_upstream
    }

    /// Bytes sent from upstream to the client.
    pub fn bytes_to_client(&self) -> (r: u64)
        ensures
            r as nat == self@.2,
    {
        self.to_client
    }

    /// Takes what an I/O operation of direction `dir` reported, and says what to do.
    pub fn on_event(&mut self, dir: Direction, event: TransferEvent) -> (r: TransferAction)
        ensures
            r == relay_action(old(self)@, event),
            final(self)@ == relay_next(old(self)@, dir, event),
    {
        if !self.open {
            return TransferAction::Close;
        }
        let action = match event {
            TransferEvent::Received(n) => if n == 0 {
                TransferAction::Close
            } else {
                TransferAction::Send
            },
            TransferEvent::Sent(_) => TransferAction::ReadAgain,
            TransferEvent::ReadFailed => TransferAction::Close,
            TransferEvent::WriteFailed => TransferAction::Close,
        };
        match action {
            TransferAction::Close => {
                self.open = false;
            },
            _ => {
                if let TransferEvent::Sent(n) = event {
                    match dir {
                        Direction::ClientToUpstream => {
                            self.to_upstream = self.to_upstream.saturating_add(n as u64);
                        },
                        Direction::UpstreamToClient => {
                            self.to_client = self.to_client.saturating_add(n as u64);
                        },
                    }
                }
            },
        }
        action
    }
}

/// Once either direction reaches end of stream, the relay is closed, and from then on
/// every event of either direction closes it: neither direction waits on the other.
pub proof fn lemma_end_of_stream_closes(
    s: RelayView,
    dir: Direction,
    other: Direction,
    later: TransferEvent,
)
    ensures
        relay_action(s, TransferEvent::Received(0)) == TransferAction::Close,
        !relay_next(s, dir, TransferEvent::Received(0)).0,
        relay_action(relay_next(s, dir, TransferEvent::Received(0)), later)
            == TransferAction::Close,
        relay_next(relay_next(s, dir, TransferEvent::Received(0)), other, later) == relay_next(
            s,
            dir,
            TransferEvent::Received(0),
        ),
{
}

} // verus!
