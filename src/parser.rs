use vstd::prelude::*;
use vstd::string::*;
use vstd::slice::{slice_subrange, slice_to_vec};
use vstd::utf8::encode_utf8;
use crate::bytes::{push_bytes, push_str};
use crate::response::{decimal, push_decimal};
use crate::text::{
    eq_ignore_ascii_case_str, eq_ignore_case, find_first, find_last, first_index,
    has_prefix, last_index, parse_uint, starts_with_str, uint_of,
};

verus! {

/// Why a request could not be read.
#[derive(Clone, Copy, Debug, PartialEq, Eq, Structural)]
pub enum ParseError {
    /// The head is incomplete or breaks the HTTP/1.x grammar.
    Malformed,
    /// Neither an absolute request-target nor a `Host` header names the target.
    MissingHost,
    /// The authority names a port that is not a number up to 65535.
    InvalidPort,
}

/// What the HTTP head parser reads from the start of `b`, when it holds a complete
/// and well-formed head: method, request-target, minor version, the headers with
/// their raw values, and the length of the head.
pub uninterp spec fn request_head(b: Seq<u8>) -> Option<
    (Seq<char>, Seq<char>, u8, Seq<(Seq<char>, Seq<u8>)>, nat),
>;

/// Text that the bytes `b` are read as, invalid sequences replaced.
pub uninterp spec fn lossy_text(b: Seq<u8>) -> Seq<char>;

/// A request head as the HTTP head parser hands it over.
pub struct RawHead {
    pub method: String,
    pub path: String,
    pub version: u8,
    pub headers: Vec<(String, Vec<u8>)>,
    pub len: usize,
}

pub open spec fn raw_headers_view(hs: Seq<(String, Vec<u8>)>) -> Seq<(Seq<char>, Seq<u8>)> {
    hs.map_values(|h: (String, Vec<u8>)| (h.0@, h.1@))
}

/// Relies on `httparse::Request::parse`, with room for 64 headers: `Some` exactly when
/// the buffer starts with a complete, well-formed head, whose length (the offset of
/// the body) lies within the buffer.
#[verifier::external_body]
fn read_head(buffer: &[u8]) -> (r: Option<RawHead>)
    ensures
        match r {
            Some(h) => request_head(buffer@) == Some(
                (h.method@, h.path@, h.version, raw_headers_view(h.headers@), h.len as nat),
            ) && h.len <= buffer@.len(),
            None => request_head(buffer@) is None,
        },
{
    let mut headers = [httparse::EMPTY_HEADER; 64];
    let mut req = httparse::Request::new(&mut headers);
    match req.parse(buffer) {
        Ok(httparse::Status::Complete(len)) => Some(RawHead {
            method: req.method?.to_string(),
            path: req.path?.to_string(),
            version: req.version?,
            headers: req.headers.iter().map(|h| (h.name.to_string(), h.value.to_vec())).collect(),
            len,
        }),
        _ => None,
    }
}

/// Relies on `String::from_utf8_lossy`: the text depends on the bytes alone.
#[verifier::external_body]
fn text_of(b: &[u8]) -> (r: String)
    ensures
        r@ == lossy_text(b@),
{
    String::from_utf8_lossy(b).to_string()
}

/// Method, request-target, minor version, host, port, headers and body.
pub type RequestView = (
    Seq<char>,
    Seq<char>,
    u8,
    Seq<char>,
    u16,
    Seq<(Seq<char>, Seq<char>)>,
    Seq<u8>,
);

/// One HTTP request, as read from a client.
#[derive(Clone, Debug)]
pub struct HttpRequest {
    pub method: String,
    pub uri: String,
    pub version: u8,
    pub host: String,
    pub port: u16,
    pub headers: Vec<(String, String)>,
    pub body: Vec<u8>,
}

pub open spec fn headers_view(hs: Seq<(String, String)>) -> Seq<(Seq<char>, Seq<char>)> {
    hs.map_values(|h: (String, String)| (h.0@, h.1@))
}

impl View for HttpRequest {
    type V = RequestView;

    open spec fn view(&self) -> RequestView {
        (
            self.method@,
            self.uri@,
            self.version,
            self.host@,
            self.port,
            headers_view(self.headers@),
            self.body@,
        )
    }
}

/// The headers of a head, their values read as text.
pub open spec fn text_headers(hs: Seq<(Seq<char>, Seq<u8>)>) -> Seq<(Seq<char>, Seq<char>)> {
    hs.map_values(|h: (Seq<char>, Seq<u8>)| (h.0, lossy_text(h.1)))
}

/// Value of the last header called `name`, in any ASCII case.
pub open spec fn header_value(hs: Seq<(Seq<char>, Seq<char>)>, name: Seq<char>) -> Option<
    Seq<char>,
>
    decreases hs.len(),
{
    if hs.len() == 0 {
        None
    } else if eq_ignore_case(hs.last().0, name) {
        Some(hs.last().1)
    } else {
        header_value(hs.drop_last(), name)
    }
}

pub open spec fn host_name() -> Seq<char> {
    seq!['h', 'o', 's', 't']
}

pub open spec fn content_length_name() -> Seq<char> {
    seq!['c', 'o', 'n', 't', 'e', 'n', 't', '-', 'l', 'e', 'n', 'g', 't', 'h']
}

pub open spec fn http_scheme() -> Seq<char> {
    seq!['h', 't', 't', 'p', ':', '/', '/']
}

pub open spec fn https_scheme() -> Seq<char> {
    seq!['h', 't', 't', 'p', 's', ':', '/', '/']
}

/// The declared body length: the last `Content-Length`, or 0 where it is absent or
/// not a number.
pub open spec fn content_length(hs: Seq<(Seq<char>, Seq<char>)>) -> nat {
    match header_value(hs, content_length_name()) {
        Some(v) => match uint_of(v, usize::MAX as nat) {
            Some(n) => n,
            None => 0,
        },
        None => 0,
    }
}

/// The request-target is an absolute `http` or `https` URI.
pub open spec fn is_absolute(uri: Seq<char>) -> bool {
    has_prefix(uri, http_scheme()) || has_prefix(uri, https_scheme())
}

/// An absolute URI without its scheme.
pub open spec fn after_scheme(uri: Seq<char>) -> Seq<char> {
    if has_prefix(uri, http_scheme()) {
        uri.subrange(7, uri.len() as int)
    } else {
        uri.subrange(8, uri.len() as int)
    }
}

/// The authority of an absolute URI: what follows the scheme, up to the next `/`.
pub open spec fn authority(uri: Seq<char>) -> Seq<char> {
    let rest = after_scheme(uri);
    rest.subrange(0, first_index(rest, '/'))
}

/// Host and port of an authority, split at its last `:`; port 80 where there is none.
pub open spec fn host_port(a: Seq<char>) -> Result<(Seq<char>, u16), ParseError> {
    let k = last_index(a, ':');
    if k < 0 {
        Ok((a, 80u16))
    } else {
        match uint_of(a.subrange(k + 1, a.len() as int), 65535) {
            Some(p) => Ok((a.subrange(0, k), p as u16)),
            None => Err(ParseError::InvalidPort),
        }
    }
}

/// Host and port named by an absolute request-target.
pub open spec fn absolute_target(uri: Seq<char>) -> Result<(Seq<char>, u16), ParseError> {
    if is_absolute(uri) {
        host_port(authority(uri))
    } else {
        Err(ParseError::Malformed)
    }
}

/// Host and port of a request: from an absolute request-target first, else from
/// its `Host` header.
pub open spec fn resolve_target(uri: Seq<char>, hs: Seq<(Seq<char>, Seq<char>)>) -> Result<
    (Seq<char>, u16),
    ParseError,
> {
    if is_absolute(uri) {
        absolute_target(uri)
    } else {
        match header_value(hs, host_name()) {
            Some(h) => host_port(h),
            None => Err(ParseError::MissingHost),
        }
    }
}

/// The body: what follows the head, up to the declared length.
pub open spec fn body_of(b: Seq<u8>, start: nat, declared: nat) -> Seq<u8> {
    let end = if start + declared < b.len() {
        start + declared
    } else {
        b.len() as nat
    };
    b.subrange(start as int, end as int)
}

/// The request whose head, of length `head_len`, was read from `b`, and how many
/// bytes of `b` it takes.
pub open spec fn request_from_head(
    b: Seq<u8>,
    method: Seq<char>,
    uri: Seq<char>,
    version: u8,
    hs: Seq<(Seq<char>, Seq<char>)>,
    head_len: nat,
) -> Result<(RequestView, nat), ParseError> {
    match resolve_target(uri, hs) {
        Err(e) => Err(e),
        Ok(hp) => {
            let body = body_of(b, head_len, content_length(hs));
            Ok(((method, uri, version, hp.0, hp.1, hs, body), head_len + body.len()))
        },
    }
}

/// The request that `b` holds, and how many of its bytes it takes.
pub open spec fn parse_spec(b: Seq<u8>) -> Result<(RequestView, nat), ParseError> {
    match request_head(b) {
        None => Err(ParseError::Malformed),
        Some(head) => request_from_head(b, head.0, head.1, head.2, text_headers(head.3), head.4),
    }
}

/// Whether `uri` starts with `http://` or `https://`.
pub fn is_absolute_uri(uri: &str) -> (r: bool)
    ensures
        r == is_absolute(uri@),
{
    proof {
        reveal_strlit("http://");
        reveal_strlit("https://");
        assert("http://"@ =~= http_scheme());
        assert("https://"@ =~= https_scheme());
    }
    starts_with_str(uri, "http://") || starts_with_str(uri, "https://")
}

/// What follows the scheme of an absolute URI.
fn strip_scheme(uri: &str) -> (r: &str)
    requires
        is_absolute(uri@),
    ensures
        r@ == after_scheme(uri@),
{
    proof {
        reveal_strlit("http://");
        assert("http://"@ =~= http_scheme());
    }
    let n = uri.unicode_len();
    if starts_with_str(uri, "http://") {
        uri.substring_char(7, n)
    } else {
        uri.substring_char(8, n)
    }
}

/// Splits an authority into host and port at its last `:`; port 80 where there is none.
pub fn parse_host_header(host: &str) -> (r: Result<(String, u16), ParseError>)
    ensures
        match r {
            Ok((h, p)) => host_port(host@) == Ok::<(Seq<char>, u16), ParseError>((h@, p)),
            Err(e) => host_port(host@) == Err::<(Seq<char>, u16), ParseError>(e),
        },
{
    match find_last(host, ':') {
        Some(k) => {
            let n = host.unicode_len();
            let port = parse_uint(host.substring_char(k + 1, n), 65535);
            match port {
                Some(p) => Ok((host.substring_char(0, k).to_string(), p as u16)),
                None => Err(ParseError::InvalidPort),
            }
        },
        None => Ok((host.to_string(), 80)),
    }
}

/// Host and port named by the authority of an absolute URI.
pub fn parse_absolute_uri(uri: &str) -> (r: Result<(String, u16), ParseError>)
    ensures
        match r {
            Ok((h, p)) => absolute_target(uri@) == Ok::<(Seq<char>, u16), ParseError>((h@, p)),
            Err(e) => absolute_target(uri@) == Err::<(Seq<char>, u16), ParseError>(e),
        },
{
    if !is_absolute_uri(uri) {
        return Err(ParseError::Malformed);
    }
    let rest = strip_scheme(uri);
    let k = find_first(rest, '/');
    parse_host_header(rest.substring_char(0, k))
}

/// The path of an absolute URI: from the first `/` after the authority, or `/`
/// where there is none. `None` for a request-target that is not absolute.
pub open spec fn path_of(uri: Seq<char>) -> Option<Seq<char>> {
    if is_absolute(uri) {
        let rest = after_scheme(uri);
        let k = first_index(rest, '/');
        if k < rest.len() {
            Some(rest.subrange(k, rest.len() as int))
        } else {
            Some(seq!['/'])
        }
    } else {
        None
    }
}

/// The path of an absolute URI, from the first `/` after the authority.
pub fn extract_path(uri: &str) -> (r: Option<&str>)
    ensures
        match r {
            Some(p) => path_of(uri@) == Some(p@),
            None => path_of(uri@) is None,
        },
{
    if !is_absolute_uri(uri) {
        return None;
    }
    let rest = strip_scheme(uri);
    let k = find_first(rest, '/');
    let n = rest.unicode_len();
    if k < n {
        Some(rest.substring_char(k, n))
    } else {
        proof {
            reveal_strlit("/");
            assert("/"@ =~= seq!['/']);
        }
        Some("/")
    }
}

/// The request-target sent to an origin server: the path alone.
pub open spec fn origin_target(uri: Seq<char>) -> Seq<char> {
    match path_of(uri) {
        Some(p) => p,
        None => uri,
    }
}

/// `name: value` lines, each ended by CRLF, in order.
pub open spec fn header_lines(hs: Seq<(Seq<char>, Seq<char>)>) -> Seq<u8>
    decreases hs.len(),
{
    if hs.len() == 0 {
        seq![]
    } else {
        header_lines(hs.drop_last()) + encode_utf8(hs.last().0) + encode_utf8(": "@)
            + encode_utf8(hs.last().1) + encode_utf8("\r\n"@)
    }
}

/// A request as it is sent upstream: request line with the origin-form target,
/// the headers in order, a blank line, the body.
pub open spec fn serialized(m: RequestView) -> Seq<u8> {
    encode_utf8(m.0) + encode_utf8(" "@) + encode_utf8(origin_target(m.1)) + encode_utf8(
        " HTTP/1."@,
    ) + decimal(m.2 as nat) + encode_utf8("\r\n"@) + header_lines(m.5) + encode_utf8("\r\n"@)
        + m.6
}

impl HttpRequest {
    /// Reads one request from the start of `buffer`: the head, the host and port
    /// it targets, and as much of the declared body as the buffer holds. Also
    /// returns how many bytes of the buffer the request takes.
    pub fn parse(buffer: &[u8]) -> (r: Result<(HttpRequest, usize), ParseError>)
        ensures
            match r {
                Ok((req, n)) => parse_spec(buffer@) == Ok::<(RequestView, nat), ParseError>(
                    (req@, n as nat),
                ),
                Err(e) => parse_spec(buffer@) == Err::<(RequestView, nat), ParseError>(e),
            },
    {
        let head = match read_head(buffer) {
            Some(h) => h,
            None => return Err(ParseError::Malformed),
        };
        let ghost raw = raw_headers_view(head.headers@);
        let ghost hs = text_headers(raw);
        let mut headers: Vec<(String, String)> = Vec::new();
        let mut i: usize = 0;
        while i < head.headers.len()
            invariant
                i <= head.headers@.len(),
                raw == raw_headers_view(head.headers@),
                hs == text_headers(raw),
                headers_view(headers@) == hs.subrange(0, i as int),
            decreases head.headers@.len() - i,
        {
            let pair = &head.headers[i];
            let text = text_of(pair.1.as_slice());
            let name = pair.0.clone();
            assert(hs[i as int] == (name@, text@));
            let ghost before = headers@;
            let ghost entry = (name@, text@);
            headers.push((name, text));
            assert(headers_view(headers@) =~= headers_view(before).push(entry));
            assert(hs.subrange(0, i + 1) =~= hs.subrange(0, i as int).push(entry));
            i += 1;
            assert(headers_view(headers@) =~= hs.subrange(0, i as int));
        }
        assert(hs.subrange(0, i as int) =~= hs);
        HttpRequest::from_head(buffer, head.method, head.path, head.version, headers, head.len)
    }

    /// Builds the request from a head already read from `buffer`: its method,
    /// request-target, minor version and headers, and its length `head_len`.
    /// The host and port come from an absolute request-target, else from the last
    /// `Host` header; the body is what follows the head, up to the last
    /// `Content-Length`.
    pub fn from_head(
        buffer: &[u8],
        method: String,
        uri: String,
        version: u8,
        headers: Vec<(String, String)>,
        head_len: usize,
    ) -> (r: Result<(HttpRequest, usize), ParseError>)
        requires
            head_len <= buffer@.len(),
        ensures
            match r {
                Ok((req, n)) => request_from_head(
                    buffer@,
                    method@,
                    uri@,
                    version,
                    headers_view(headers@),
                    head_len as nat,
                ) == Ok::<(RequestView, nat), ParseError>((req@, n as nat)),
                Err(e) => request_from_head(
                    buffer@,
                    method@,
                    uri@,
                    version,
                    headers_view(headers@),
                    head_len as nat,
                ) == Err::<(RequestView, nat), ParseError>(e),
            },
    {
        let ghost hs = headers_view(headers@);
        proof {
            reveal_strlit("host");
            reveal_strlit("content-length");
            assert("host"@ =~= host_name());
            assert("content-length"@ =~= content_length_name());
        }
        let mut host: Option<String> = None;
        let mut declared: usize = 0;
        let mut i: usize = 0;
        while i < headers.len()
            invariant
                i <= headers@.len(),
                "host"@ == host_name(),
                "content-length"@ == content_length_name(),
                hs == headers_view(headers@),
                match host {
                    Some(h) => header_value(hs.subrange(0, i as int), host_name()) == Some(h@),
                    None => header_value(hs.subrange(0, i as int), host_name()) is None,
                },
                declared as nat == content_length(hs.subrange(0, i as int)),
            decreases headers@.len() - i,
        {
            let pair = &headers[i];
            let ghost prev = hs.subrange(0, i as int);
            let ghost next = hs.subrange(0, i + 1);
            assert(next.drop_last() =~= prev);
            assert(next.last() == (pair.0@, pair.1@));
            if eq_ignore_ascii_case_str(pair.0.as_str(), "host") {
                host = Some(pair.1.clone());
                assert(!eq_ignore_case(next.last().0, content_length_name()));
            } else if eq_ignore_ascii_case_str(pair.0.as_str(), "content-length") {
                declared = match parse_uint(pair.1.as_str(), usize::MAX as u64) {
                    Some(v) => v as usize,
                    None => 0,
                };
            }
            i += 1;
        }
        assert(hs.subrange(0, i as int) =~= hs);
        let target = if is_absolute_uri(uri.as_str()) {
            parse_absolute_uri(uri.as_str())
        } else {
            match host {
                Some(h) => parse_host_header(h.as_str()),
                None => Err(ParseError::MissingHost),
            }
        };
        let (host, port) = match target {
            Ok(t) => t,
            Err(e) => return Err(e),
        };
        let end = if declared < buffer.len() - head_len {
            head_len + declared
        } else {
            buffer.len()
        };
        let body = slice_to_vec(slice_subrange(buffer, head_len, end));
        Ok((HttpRequest { method, uri, version, host, port, headers, body }, end))
    }

    /// The request as it is sent upstream: request line with the origin-form
    /// target, the headers in their order, a blank line, then the body.
    pub fn to_bytes(&self) -> (r: Vec<u8>)
        ensures
            r@ == serialized(self@),
    {
        let mut out: Vec<u8> = Vec::new();
        push_str(&mut out, self.method.as_str());
        push_str(&mut out, " ");
        match extract_path(self.uri.as_str()) {
            Some(p) => push_str(&mut out, p),
            None => push_str(&mut out, self.uri.as_str()),
        }
        push_str(&mut out, " HTTP/1.");
        push_decimal(&mut out, self.version as u64);
        push_str(&mut out, "\r\n");
        let ghost line = out@;
        let ghost hs = headers_view(self.headers@);
        let mut i: usize = 0;
        while i < self.headers.len()
            invariant
                i <= self.headers@.len(),
                hs == headers_view(self.headers@),
                out@ == line + header_lines(hs.subrange(0, i as int)),
            decreases self.headers@.len() - i,
        {
            let pair = &self.headers[i];
            push_str(&mut out, pair.0.as_str());
            push_str(&mut out, ": ");
            push_str(&mut out, pair.1.as_str());
            push_str(&mut out, "\r\n");
            let ghost next = hs.subrange(0, i + 1);
            assert(next.drop_last() =~= hs.subrange(0, i as int));
            assert(next.last() == (pair.0@, pair.1@));
            assert(header_lines(next) == header_lines(hs.subrange(0, i as int)) + encode_utf8(
                pair.0@,
            ) + encode_utf8(": "@) + encode_utf8(pair.1@) + encode_utf8("\r\n"@));
            i += 1;
            assert(out@ =~= line + header_lines(hs.subrange(0, i as int)));
        }
        assert(hs.subrange(0, i as int) =~= hs);
        push_str(&mut out, "\r\n");
        push_bytes(&mut out, self.body.as_slice());
        assert(out@ =~= serialized(self@));
        out
    }
}

/// Re-serializing a parsed request reproduces its method, its request-target in
/// origin form, its minor version, its headers in their order with the names as
/// they were written, and its body.
pub proof fn lemma_round_trip(b: Seq<u8>)
    requires
        parse_spec(b) is Ok,
    ensures
        ({
            let head = request_head(b)->Some_0;
            let m = parse_spec(b)->Ok_0.0;
            &&& m.0 == head.0 && m.1 == head.1 && m.2 == head.2
            &&& m.5 == text_headers(head.3)
            &&& serialized(m) == encode_utf8(head.0) + encode_utf8(" "@) + encode_utf8(
                origin_target(head.1),
            ) + encode_utf8(" HTTP/1."@) + decimal(head.2 as nat) + encode_utf8("\r\n"@)
                + header_lines(text_headers(head.3)) + encode_utf8("\r\n"@) + m.6
            &&& !is_absolute(head.1) ==> origin_target(head.1) == head.1
        }),
{
}

} // verus!
