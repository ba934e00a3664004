//! The byte-stream seam between the protocol layers and the outside world.

use vstd::prelude::*;

use core::time::Duration;

verus! {

/// `std::io::Error`, carried through unchanged from a failed read or write.
#[verifier::external_type_specification]
#[verifier::external_body]
pub struct ExIoError(std::io::Error);

/// Errors reported by a transport.
#[derive(Debug)]
pub enum TransportError {
    /// An underlying I/O error.
    Io(std::io::Error),
    /// No complete frame arrived within the allotted time.
    Timeout,
    /// The peer disconnected, or the bytes received do not form a frame.
    Disconnected,
}

/// A bidirectional frame transport.
///
/// Implementations send one complete encoded ADU per `send` call and hand
/// back one complete received ADU per `recv` call. An implementation that
/// keeps a record of its traffic says so through `records_traffic`, and then
/// promises that `send` records the bytes it was given and whether it
/// succeeded, and `recv` the
/// timeout and the size of the buffer it was given and the bytes it
/// delivered.
pub trait Transport {
    /// Whether this transport keeps the records `sent` and `timeouts`.
    open spec fn records_traffic(&self) -> bool {
        false
    }

    /// The frames handed to `send` so far, oldest first.
    open spec fn sent(&self) -> Seq<Seq<u8>> {
        Seq::empty()
    }

    /// The timeouts handed to `recv` so far, oldest first.
    open spec fn timeouts(&self) -> Seq<Duration> {
        Seq::empty()
    }

    /// The number of `send` calls so far that reported success.
    open spec fn sends_completed(&self) -> nat {
        0
    }

    /// The lengths of the buffers handed to `recv` so far, oldest first.
    open spec fn recv_buffers(&self) -> Seq<nat> {
        Seq::empty()
    }

    /// The frames `recv` delivered so far, oldest first: for each call that
    /// returned `Ok(n)`, the first `n` bytes of its buffer.
    open spec fn received(&self) -> Seq<Seq<u8>> {
        Seq::empty()
    }

    /// Send the bytes of one frame.
    fn send(&mut self, data: &[u8]) -> (r: Result<(), TransportError>)
        ensures
            final(self).records_traffic() == old(self).records_traffic(),
            old(self).records_traffic() ==> final(self).sent() == old(self).sent().push(data@)
                && final(self).timeouts() == old(self).timeouts(),
            old(self).records_traffic() ==> final(self).recv_buffers() == old(self).recv_buffers()
                && final(self).received() == old(self).received(),
            old(self).records_traffic() ==> final(self).sends_completed() == old(self).sends_completed()
                + if r is Ok { 1nat } else { 0nat },
    ;

    /// Receive one frame into `buf` and return its length.
    ///
    /// Implementations promise that the returned length never exceeds the
    /// length of `buf`.
    fn recv(&mut self, buf: &mut [u8], timeout: Duration) -> (r: Result<usize, TransportError>)
        ensures
            final(buf)@.len() == old(buf)@.len(),
            r matches Ok(n) ==> n <= old(buf)@.len(),
            final(self).records_traffic() == old(self).records_traffic(),
            old(self).records_traffic() ==> final(self).sent() == old(self).sent()
                && final(self).timeouts() == old(self).timeouts().push(timeout),
            old(self).records_traffic() ==> final(self).recv_buffers() == old(self).recv_buffers().push(
                old(buf)@.len(),
            ),
            old(self).records_traffic() ==> final(self).received() == (match r {
                Ok(n) => old(self).received().push(final(buf)@.subrange(0, n as int)),
                Err(_) => old(self).received(),
            }),
            old(self).records_traffic() ==> final(self).sends_completed() == old(self).sends_completed(),
    ;
}

} // verus!
