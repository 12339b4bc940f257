use vstd::prelude::*;
use vstd::utf8::encode_utf8;
use crate::bytes::{push_bytes, push_str};

verus! {

/// Decimal digits of `n`, most significant first, as ASCII bytes.
pub open spec fn decimal(n: nat) -> Seq<u8>
    decreases n,
{
    if n < 10 {
        seq![(n + 48) as u8]
    } else {
        decimal(n / 10).push(((n % 10) + 48) as u8)
    }
}

/// Appends the decimal form of `n` to `out`.
pub fn push_decimal(out: &mut Vec<u8>, n: u64)
    ensures
        final(out)@ == old(out)@ + decimal(n as nat),
    decreases n,
{
    if n >= 10 {
        push_decimal(out, n / 10);
    }
    let d: u8 = (n % 10) as u8;
    out.push(d + 48);
    assert(final(out)@ =~= old(out)@ + decimal(n as nat));
}

} // verus!

verus! {

/// Body of an error response: `"<code> <text>\n"`.
pub open spec fn error_body(code: u16, text: Seq<char>) -> Seq<u8> {
    decimal(code as nat) + seq![32u8] + encode_utf8(text) + seq![10u8]
}

/// Status line, `Content-Type`, `Content-Length`, `Connection`, blank line, body.
pub open spec fn error_response_bytes(code: u16, text: Seq<char>) -> Seq<u8> {
    encode_utf8("HTTP/1.1 "@) + decimal(code as nat) + seq![32u8] + encode_utf8(text)
        + encode_utf8("\r\nContent-Type: text/plain\r\nContent-Length: "@) + decimal(
        error_body(code, text).len(),
    ) + encode_utf8("\r\nConnection: close\r\n\r\n"@) + error_body(code, text)
}

/// Builds the minimal `text/plain` response for `status_code` and `status_text`.
pub fn error_response(status_code: u16, status_text: &str) -> (r: Vec<u8>)
    ensures
        r@ == error_response_bytes(status_code, status_text@),
{
    let mut body: Vec<u8> = Vec::new();
    push_decimal(&mut body, status_code as u64);
    body.push(32);
    push_str(&mut body, status_text);
    body.push(10);
    assert(body@ =~= error_body(status_code, status_text@));
    let mut out: Vec<u8> = Vec::new();
    push_str(&mut out, "HTTP/1.1 ");
    push_decimal(&mut out, status_code as u64);
    out.push(32);
    push_str(&mut out, status_text);
    push_str(&mut out, "\r\nContent-Type: text/plain\r\nContent-Length: ");
    push_decimal(&mut out, body.len() as u64);
    push_str(&mut out, "\r\nConnection: close\r\n\r\n");
    push_bytes(&mut out, body.as_slice());
    assert(out@ =~= error_response_bytes(status_code, status_text@));
    out
}

/// An error response begins with its status line, states in `Content-Length` the exact
/// length of its body, and ends with that body, `"<code> <text>\n"`.
pub proof fn lemma_error_response_shape(code: u16, text: Seq<char>)
    ensures
        ({
            let r = error_response_bytes(code, text);
            let body = error_body(code, text);
            let line = encode_utf8("HTTP/1.1 "@) + decimal(code as nat) + seq![32u8]
                + encode_utf8(text);
            &&& body.len() == decimal(code as nat).len() + encode_utf8(text).len() + 2
            &&& r.subrange(0, line.len() as int) == line
            &&& r.subrange(r.len() - body.len(), r.len() as int) == body
            &&& r == line + encode_utf8("\r\nContent-Type: text/plain\r\nContent-Length: "@)
                + decimal(body.len()) + encode_utf8("\r\nConnection: close\r\n\r\n"@) + body
        }),
{
    let r = error_response_bytes(code, text);
    let body = error_body(code, text);
    let line = encode_utf8("HTTP/1.1 "@) + decimal(code as nat) + seq![32u8] + encode_utf8(text);
    let rest = encode_utf8("\r\nContent-Type: text/plain\r\nContent-Length: "@) + decimal(
        body.len(),
    ) + encode_utf8("\r\nConnection: close\r\n\r\n"@) + body;
    assert(r =~= line + rest);
    assert(r.subrange(0, line.len() as int) =~= line);
    assert(r.subrange(r.len() - body.len(), r.len() as int) =~= body);
}

/// The line that tells a client its tunnel is open.
pub open spec fn connect_established_bytes() -> Seq<u8> {
    encode_utf8("HTTP/1.1 200 Connection Established\r\n\r\n"@)
}

/// Builds the line that tells a client its tunnel is open.
pub fn connect_established() -> (r: Vec<u8>)
    ensures
        r@ == connect_established_bytes(),
{
    let mut out: Vec<u8> = Vec::new();
    push_str(&mut out, "HTTP/1.1 200 Connection Established\r\n\r\n");
    out
}

} // verus!
