//! The watcher: what it shows of the processes and events of a runtime, and how it follows keys.
pub mod app;
pub mod input;
pub mod views;
