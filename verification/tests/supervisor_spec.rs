//! The rules of supervision.
use rebar::process::ExitReason;
use rebar::supervisor::dynamic::DynamicSupervisorSpec;
use rebar::supervisor::{
    ChildSpec, RestartStrategy, RestartType, ShutdownStrategy, SupervisorSpec,
};

#[test]
fn permanent_restarts_on_normal() {
    assert!(RestartType::Permanent.should_restart(&ExitReason::Normal));
}

#[test]
fn permanent_restarts_on_abnormal() {
    assert!(RestartType::Permanent.should_restart(&ExitReason::Abnormal("err".into())));
}

#[test]
fn permanent_restarts_on_kill() {
    assert!(RestartType::Permanent.should_restart(&ExitReason::Kill));
}

#[test]
fn transient_does_not_restart_on_normal() {
    assert!(!RestartType::Transient.should_restart(&ExitReason::Normal));
}

#[test]
fn transient_restarts_on_abnormal() {
    assert!(RestartType::Transient.should_restart(&ExitReason::Abnormal("err".into())));
}

#[test]
fn temporary_never_restarts() {
    assert!(!RestartType::Temporary.should_restart(&ExitReason::Normal));
    assert!(!RestartType::Temporary.should_restart(&ExitReason::Abnormal("err".into())));
    assert!(!RestartType::Temporary.should_restart(&ExitReason::Kill));
}

#[test]
fn supervisor_spec_builder() {
    let spec = SupervisorSpec::new(RestartStrategy::OneForOne)
        .max_restarts(3)
        .max_seconds(5);
    assert_eq!(spec.max_restarts, 3);
    assert_eq!(spec.max_seconds, 5);
}

#[test]
fn supervisor_spec_with_children() {
    let spec = SupervisorSpec::new(RestartStrategy::OneForAll)
        .child(ChildSpec::new("worker_1"))
        .child(ChildSpec::new("worker_2"));
    assert_eq!(spec.children.len(), 2);
}

#[test]
fn child_spec_defaults() {
    let child = ChildSpec::new("test");
    assert_eq!(child.id, "test");
    assert!(matches!(child.restart, RestartType::Permanent));
    assert!(matches!(child.shutdown, ShutdownStrategy::Timeout(_)));
}

#[test]
fn child_spec_builder() {
    let child = ChildSpec::new("worker")
        .restart(RestartType::Transient)
        .shutdown(ShutdownStrategy::BrutalKill);
    assert!(matches!(child.restart, RestartType::Transient));
    assert!(matches!(child.shutdown, ShutdownStrategy::BrutalKill));
}

#[test]
fn dynamic_supervisor_spec_builder_pattern() {
    let spec = DynamicSupervisorSpec::new().max_restarts(10).max_seconds(60);
    let _ = spec;
}
