//! Resilience layer over MPD sessions: a per-host reconnect state machine and
//! a policy that picks the most relevant of several hosts.
pub mod error;
pub mod selection;
pub mod supervisor;
pub mod transport;

pub use error::Error;
pub use transport::{is_unix_socket, resolve_transport, Transport};
