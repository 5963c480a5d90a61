//! Processes: their identities, messages, mailboxes, and the tables that hold them.
pub mod laws;
pub mod mailbox;
pub mod monitor;
pub mod table;
pub mod types;

pub use types::{ExitReason, Message, ProcessId, RegistryError, SendError};
