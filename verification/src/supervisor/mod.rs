//! Supervision: when children are started, restarted and stopped.
pub mod calls;
pub mod common;
pub mod dynamic;
pub mod dynamic_laws;
pub mod engine;
pub mod laws;
pub mod spec;

pub use spec::{
    ChildSpec, RestartStrategy, RestartType, ShutdownStrategy, SupervisorError, SupervisorSpec,
};
