//! Connection management for delivering short payloads to one remote peer:
//! a single-connection state manager and a bounded pool of such connections.
//!
//! The library decides; a driver performs the transport work. Every public
//! operation is a step from the current state and an event to the next state
//! and an action for the driver.
pub mod concurrent;
pub mod connection;
pub mod connection_laws;
pub mod endpoints;
pub mod params;
pub mod pool;
pub mod pool_laws;
pub mod whole_call;

pub use connection::QuicConnection;
pub use params::{QuicConnectionError, QuicConnectionParameters};
pub use pool::{PooledConnection, QuicConnectionPool};
