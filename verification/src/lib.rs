//! Low-latency stream instrumentation.
//!
//! The crate decodes kernel RX-timestamp ancillary data captured alongside
//! socket reads, composes transport layers that forward capabilities to the
//! layer they wrap, parses message frames out of a read in batches, and plans
//! readiness-driven dispatch over many connections on one thread.
//!
//! All byte-level decoding is bounds-checked: declared lengths coming from the
//! kernel or from the wire are validated against the bytes actually present
//! before anything is interpreted positionally.

pub mod cmsg;
pub mod frame;
pub mod mux;
pub mod stream;
pub mod timestamps;
