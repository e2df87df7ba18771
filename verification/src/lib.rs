//! Verified core of a real-time fan-out relay: producers publish events and
//! every connected streaming client receives a copy.
//!
//! The library holds the connection registry, the wire encoding of events,
//! the publish logic over a `tokio` broadcast channel and the state machine
//! of a connection session. It performs no I/O and never waits: a server
//! around it owns the sockets, awaits them, and reports to the library what
//! happened.

pub mod bus;
pub mod client_id;
pub mod config;
pub mod envelope;
pub mod registry;
pub mod relay;
pub mod session;
pub mod state;

pub use envelope::WsEvent;
pub use state::AppState;
