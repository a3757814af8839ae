//! Layered stream composition and the timestamp-capturing layer.
//!
//! Every transport layer supports a small set of capabilities, each its own
//! trait: connection metadata, readiness queries, and captured-timestamp
//! exposure. A layer implements only what it changes and forwards the rest to
//! the layer it wraps, so capture, encryption, and framing layers compose
//! without per-combination glue. Raw descriptor exposure and reactor
//! registration delegate the same way, in the layer around the syscalls.
//!
//! [`TimestampingStream`] is the capture layer. It wraps the descriptor-owning
//! layer and caches the receive timestamps decoded from the ancillary data of
//! the most recent completed read — never an aggregate or a stale value. A
//! read of zero bytes (end of stream) clears the cache unconditionally; a read
//! whose ancillary data holds no timestamping entry leaves it absent. The
//! caller that performs the receive syscall owns the scratch buffer the kernel
//! fills and hands the control bytes to [`TimestampingStream::record_read`].

use crate::cmsg::{decode_control, spec_decode_control};
use crate::timestamps::RxTimestamps;
use vstd::prelude::*;

verus! {

/// An OS error code surfaced by a readiness or I/O operation.
#[derive(Clone, Copy, PartialEq, Eq, Structural, Debug)]
pub struct OsError {
    pub code: i32,
}

/// Immutable identity of a remote endpoint, created once at dial time and
/// delegated unchanged through every wrapping layer.
#[derive(Clone, Debug)]
pub struct ConnectionInfo {
    pub host: String,
    pub port: u16,
    /// CPU the receive queue should be served on, if the dialer asked for one.
    pub receive_cpu: Option<u32>,
}

/// Capability: expose the connection metadata of the lowest layer.
pub trait ConnectionInfoProvider {
    fn connection_info(&self) -> &ConnectionInfo;
}

/// Capability: readiness queries the multiplexer drives a connection with,
/// without knowing the layer's internals.
pub trait Selectable {
    /// Whether the connect/handshake sequence has completed.
    fn connected(&mut self) -> Result<bool, OsError>;

    /// Arm the underlying registration for writable readiness.
    fn make_writable(&mut self) -> Result<(), OsError>;

    /// Arm the underlying registration for readable readiness.
    fn make_readable(&mut self) -> Result<(), OsError>;
}

/// Capability: the last receive timestamps a capture layer decoded.
pub trait RxTimestamped {
    spec fn spec_last_rx(&self) -> Option<RxTimestamps>;

    /// The timestamps of the most recent completed read, or absent.
    fn last_rx_timestamps(&self) -> (r: Option<RxTimestamps>)
        ensures
            r == self.spec_last_rx(),
    ;

    /// Takes the cached timestamps, leaving the slot empty.
    fn take_last_rx_timestamps(&mut self) -> (r: Option<RxTimestamps>)
        ensures
            r == old(self).spec_last_rx(),
            final(self).spec_last_rx() is None,
    ;
}

/// The timestamp-capturing layer: wraps a stream and caches the receive
/// timestamps decoded from each read's ancillary data.
pub struct TimestampingStream<S> {
    inner: S,
    last: Option<RxTimestamps>,
}

impl<S> TimestampingStream<S> {
    /// The wrapped layer.
    pub closed spec fn spec_inner(self) -> S {
        self.inner
    }

    /// The cached timestamps of the most recent completed read.
    pub closed spec fn spec_last(self) -> Option<RxTimestamps> {
        self.last
    }

    /// Wraps a stream; nothing has been read yet, so no timestamps are cached.
    pub fn new(inner: S) -> (r: Self)
        ensures
            r.spec_inner() == inner,
            r.spec_last() is None,
    {
        TimestampingStream { inner, last: None }
    }

    /// Borrows the wrapped layer.
    pub fn inner_ref(&self) -> (r: &S)
        ensures
            *r == self.spec_inner(),
    {
        &self.inner
    }

    /// Mutably borrows the wrapped layer; the cached timestamps are untouched.
    pub fn inner_mut(&mut self) -> (r: &mut S)
        ensures
            *r == old(self).spec_inner(),
            final(self).spec_inner() == *final(r),
            final(self).spec_last() == old(self).spec_last(),
    {
        &mut self.inner
    }

    /// Unwraps the stream, dropping any cached timestamps.
    pub fn into_inner(self) -> (r: S)
        ensures
            r == self.spec_inner(),
    {
        self.inner
    }

    /// Records the outcome of one completed read: `n` bytes of payload and
    /// the control bytes the kernel filled alongside them.
    ///
    /// A zero-byte read is end of stream and clears the cache unconditionally.
    /// Otherwise the cache becomes exactly what the control bytes decode to:
    /// the first timestamping entry's records, or absent if the chain holds
    /// no usable entry — never the previous read's value.
    pub fn record_read(&mut self, n: usize, ctrl: &[u8])
        ensures
            final(self).spec_inner() == old(self).spec_inner(),
            n == 0 ==> final(self).spec_last() is None,
            n != 0 ==> final(self).spec_last() == spec_decode_control(ctrl@),
    {
        if n == 0 {
            self.last = None;
        } else {
            self.last = decode_control(ctrl);
        }
    }
}

impl<S> RxTimestamped for TimestampingStream<S> {
    open spec fn spec_last_rx(&self) -> Option<RxTimestamps> {
        self.spec_last()
    }

    fn last_rx_timestamps(&self) -> (r: Option<RxTimestamps>) {
        self.last
    }

    fn take_last_rx_timestamps(&mut self) -> (r: Option<RxTimestamps>)
        ensures
            final(self).spec_inner() == old(self).spec_inner(),
    {
        let taken = self.last;
        self.last = None;
        taken
    }
}

impl<S: ConnectionInfoProvider> ConnectionInfoProvider for TimestampingStream<S> {
    fn connection_info(&self) -> &ConnectionInfo {
        self.inner.connection_info()
    }
}

impl<S: Selectable> Selectable for TimestampingStream<S> {
    fn connected(&mut self) -> Result<bool, OsError> {
        self.inner.connected()
    }

    fn make_writable(&mut self) -> Result<(), OsError> {
        self.inner.make_writable()
    }

    fn make_readable(&mut self) -> Result<(), OsError> {
        self.inner.make_readable()
    }
}

} // verus!
