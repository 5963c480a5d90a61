//! Nodes that talk to each other: frames, membership, names and connections.
pub mod addr;
pub mod connection;
pub mod convergence;
pub mod drain;
pub mod laws;
pub mod protocol;
pub mod registry;
pub mod router;
pub mod swim;
pub mod transport;
