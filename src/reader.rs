use vstd::prelude::*;
use crate::bytes::push_bytes;

verus! {

/// Most bytes a request head may take before it is refused.
pub const MAX_REQUEST_BYTES: usize = 1000000;

/// What one read did to the accumulated head.
#[derive(Clone, Copy, Debug, PartialEq, Eq, Structural)]
pub enum ReadOutcome {
    /// No blank line yet: read on.
    NeedMore,
    /// The head is complete; the buffer is ready to parse.
    Complete,
    /// The peer closed the connection before the head was complete.
    ConnectionClosedEarly,
    /// More than `MAX_REQUEST_BYTES` arrived without a blank line.
    RequestTooLarge,
}

/// Why no request could be read from a connection.
#[derive(Clone, Copy, Debug, PartialEq, Eq, Structural)]
pub enum ReadError {
    ConnectionClosedEarly,
    RequestTooLarge,
    RequestTimeout,
}

/// `b` holds CRLFCRLF somewhere.
pub open spec fn has_head_end(b: Seq<u8>) -> bool {
    exists|i: int|
        0 <= i && i + 4 <= b.len() && #[trigger] b[i] == 13 && b[i + 1] == 10 && b[i + 2] == 13
            && b[i + 3] == 10
}

/// The outcome of a read of `chunk` onto the bytes `before`.
pub open spec fn read_outcome(before: Seq<u8>, chunk: Seq<u8>) -> ReadOutcome {
    if chunk.len() == 0 {
        ReadOutcome::ConnectionClosedEarly
    } else if has_head_end(before + chunk) {
        ReadOutcome::Complete
    } else if (before + chunk).len() > MAX_REQUEST_BYTES {
        ReadOutcome::RequestTooLarge
    } else {
        ReadOutcome::NeedMore
    }
}

/// Gathers the bytes of a connection until the request head is complete.
#[derive(Debug)]
pub struct RequestReader {
    buffer: Vec<u8>,
}

/// Whether `b` holds CRLFCRLF.
fn find_head_end(b: &Vec<u8>) -> (r: bool)
    ensures
        r == has_head_end(b@),
{
    let n = b.len();
    if n < 4 {
        return false;
    }
    let mut i: usize = 0;
    while i <= n - 4
        invariant
            n == b@.len(),
            n >= 4,
            i <= n - 3,
            forall|j: int|
                0 <= j < i ==> !(#[trigger] b@[j] == 13 && b@[j + 1] == 10 && b@[j + 2] == 13
                    && b@[j + 3] == 10),
        decreases n - i,
    {
        if b[i] == 13 && b[i + 1] == 10 && b[i + 2] == 13 && b[i + 3] == 10 {
            return true;
        }
        i += 1;
    }
    false
}

impl View for RequestReader {
    type V = Seq<u8>;

    closed spec fn view(&self) -> Seq<u8> {
        self.buffer@
    }
}

impl RequestReader {
    /// A reader that holds nothing yet.
    pub fn new() -> (r: RequestReader)
        ensures
            r@ == Seq::<u8>::empty(),
    {
        RequestReader { buffer: Vec::new() }
    }

    /// Takes the bytes of one read. An empty read means the peer closed the
    /// connection; otherwise the bytes are added, and the head is complete once
    /// CRLFCRLF appears anywhere in what was gathered, or refused once more than
    /// `MAX_REQUEST_BYTES` were gathered without it.
    pub fn feed(&mut self, chunk: &[u8]) -> (r: ReadOutcome)
        ensures
            r == read_outcome(old(self)@, chunk@),
            chunk@.len() == 0 ==> final(self)@ == old(self)@,
            chunk@.len() > 0 ==> final(self)@ == old(self)@ + chunk@,
    {
        if chunk.len() == 0 {
            return ReadOutcome::ConnectionClosedEarly;
        }
        push_bytes(&mut self.buffer, chunk);
        if find_head_end(&self.buffer) {
            ReadOutcome::Complete
        } else if self.buffer.len() > MAX_REQUEST_BYTES {
            ReadOutcome::RequestTooLarge
        } else {
            ReadOutcome::NeedMore
        }
    }

    /// The bytes gathered so far: the head and whatever followed it.
    pub fn buffer(&self) -> (r: &[u8])
        ensures
            r@ == self@,
    {
        self.buffer.as_slice()
    }

    /// Hands over the bytes gathered.
    pub fn into_bytes(self) -> (r: Vec<u8>)
        ensures
            r@ == self@,
    {
        self.buffer
    }
}

/// Bytes that arrive without CRLFCRLF are refused as soon as more than
/// `MAX_REQUEST_BYTES` have been gathered, whatever came before.
pub proof fn lemma_size_cap(before: Seq<u8>, chunk: Seq<u8>)
    requires
        chunk.len() > 0,
        !has_head_end(before + chunk),
        before.len() + chunk.len() > MAX_REQUEST_BYTES,
    ensures
        read_outcome(before, chunk) == ReadOutcome::RequestTooLarge,
{
}

} // verus!
