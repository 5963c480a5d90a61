//! The transports between nodes.
pub mod quic;
pub mod tcp;
pub mod traits;

pub use traits::TransportError;
