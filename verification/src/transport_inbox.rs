//! The receiving side of the client's transport: datagrams above the safe
//! payload size are dropped, reliable streams are collected whole, and
//! everything received waits in an inbox until the next tick polls it.

use vstd::prelude::*;
use std::collections::VecDeque;

verus! {

/// Reads `aetheris_protocol::MAX_SAFE_PAYLOAD_SIZE`, the largest payload that
/// fits a datagram without fragmentation; the protocol crate defines it as 1200.
#[verifier::external_body]
fn max_safe_payload_size() -> (n: usize)
    ensures
        n == 1200,
{
    aetheris_protocol::MAX_SAFE_PAYLOAD_SIZE
}

/// Whether a received datagram of `len` bytes is kept: at most the safe
/// payload size (1200 bytes).
pub fn accepts_datagram(len: usize) -> (b: bool)
    ensures
        b == (len <= 1200),
{
    len <= max_safe_payload_size()
}

/// Events waiting for the next poll, and whether the session has closed.
pub struct Inbox<T> {
    queue: VecDeque<T>,
    closed: bool,
}

impl<T> Inbox<T> {
    /// The waiting events, oldest first.
    pub closed spec fn view(&self) -> Seq<T> {
        self.queue@
    }

    /// Whether the session has closed.
    pub closed spec fn is_closed_spec(&self) -> bool {
        self.closed
    }

    /// An empty, open inbox.
    pub fn new() -> (b: Inbox<T>)
        ensures
            b@ == Seq::<T>::empty(),
            !b.is_closed_spec(),
    {
        Inbox { queue: VecDeque::new(), closed: false }
    }

    /// Queues a received event.
    pub fn push(&mut self, event: T)
        ensures
            final(self)@ == old(self)@.push(event),
            final(self).is_closed_spec() == old(self).is_closed_spec(),
    {
        self.queue.push_back(event);
    }

    /// Records that the session closed (the reader finished or failed).
    pub fn close(&mut self)
        ensures
            final(self)@ == old(self)@,
            final(self).is_closed_spec(),
    {
        self.closed = true;
    }

    /// Whether the session has closed.
    pub fn is_closed(&self) -> (b: bool)
        ensures
            b == self.is_closed_spec(),
    {
        self.closed
    }

    /// Takes every waiting event, oldest first, followed by `disconnected`
    /// when the session has closed. The inbox is left empty; a closed one
    /// reports the disconnection again at every poll.
    pub fn poll(&mut self, disconnected: T) -> (events: Vec<T>)
        ensures
            events@ == (if old(self).is_closed_spec() {
                old(self)@.push(disconnected)
            } else {
                old(self)@
            }),
            final(self)@ == Seq::<T>::empty(),
            final(self).is_closed_spec() == old(self).is_closed_spec(),
    {
        let ghost q0 = self.queue@;
        let ghost c0 = self.closed;
        let mut events: Vec<T> = Vec::new();
        while self.queue.len() > 0
            invariant
                q0 == events@ + self.queue@,
                self.closed == c0,
            decreases self.queue@.len(),
        {
            let ghost before = self.queue@;
            match self.queue.pop_front() {
                Some(e) => {
                    events.push(e);
                    assert(q0 == events@ + self.queue@) by {
                        assert(before == seq![e] + self.queue@);
                    }
                },
                None => {},
            }
        }
        assert(events@ =~= q0);
        if self.closed {
            events.push(disconnected);
        }
        events
    }
}

/// The bytes of one reliable stream, collected chunk by chunk until it ends.
pub struct StreamBuffer {
    bytes: Vec<u8>,
}

impl StreamBuffer {
    /// The bytes received so far.
    pub closed spec fn view(&self) -> Seq<u8> {
        self.bytes@
    }

    /// An empty stream.
    pub fn new() -> (s: StreamBuffer)
        ensures
            s@ == Seq::<u8>::empty(),
    {
        StreamBuffer { bytes: Vec::new() }
    }

    /// Appends a received chunk.
    pub fn append(&mut self, chunk: &[u8])
        ensures
            final(self)@ == old(self)@ + chunk@,
    {
        let ghost b0 = self.bytes@;
        let mut i: usize = 0;
        while i < chunk.len()
            invariant
                i <= chunk@.len(),
                self.bytes@ == b0 + chunk@.take(i as int),
            decreases chunk@.len() - i,
        {
            self.bytes.push(chunk[i]);
            i = i + 1;
            assert(self.bytes@ =~= b0 + chunk@.take(i as int));
        }
        assert(chunk@.take(chunk@.len() as int) =~= chunk@);
    }

    /// The whole message once the stream has ended; an empty stream carries none.
    pub fn finish(self) -> (m: Option<Vec<u8>>)
        ensures
            match m {
                Some(v) => self@.len() > 0 && v@ == self@,
                None => self@.len() == 0,
            },
    {
        if self.bytes.len() == 0 {
            None
        } else {
            Some(self.bytes)
        }
    }
}

} // verus!
