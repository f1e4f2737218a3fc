//! Tuning values and the classified failures of the transport.
use std::time::Duration;
use vstd::prelude::*;

verus! {

/// The public identity of the remote peer, as its raw bytes.
pub type PeerIdentity = [u8; 32];

/// How a transport operation can fail.
#[derive(Clone, Copy, Debug, PartialEq, Eq)]
pub enum QuicConnectionError {
    /// The session failed; `retry` tells whether a new session is worth trying.
    ConnectionError { retry: bool },
    /// The deadline passed before the operation finished.
    TimeOut,
}

/// Immutable tuning of a connection.
#[derive(Clone, Copy, Debug, PartialEq, Eq)]
pub struct QuicConnectionParameters {
    /// Deadline of one attempt to establish a session.
    pub connection_timeout: Duration,
    /// Deadline for opening an outbound stream.
    pub unistream_timeout: Duration,
    /// Deadline for writing a payload.
    pub write_timeout: Duration,
    /// Attempts that establishing a session, and one send, may make.
    pub connection_retry_count: usize,
}

} // verus!
