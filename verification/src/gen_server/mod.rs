//! Servers: processes that answer calls and take casts.
pub mod engine;
pub mod envelope;
pub mod laws;
pub mod serving;
pub mod typed;
