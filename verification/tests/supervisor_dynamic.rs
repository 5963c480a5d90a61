//! The supervisor of children that come and go.
use rebar::counter::Counter;
use rebar::process::{ExitReason, ProcessId};
use rebar::supervisor::common::{child_exit_reason, ChildOutcome};
use rebar::supervisor::dynamic::{
    DynAction, DynReply, DynSupervisorMsg, DynamicSupervisorSpec, DynamicSupervisorState,
    FIRST_DYN_CHILD_ID,
};
use rebar::supervisor::engine::ChildEntry;
use rebar::supervisor::{ChildSpec, RestartType, SupervisorError};
use rebar::time::Instant;

/// A supervisor with the number of starts it asked for.
struct World {
    state: DynamicSupervisorState<()>,
    ids: Counter,
    now: u64,
    starts: u32,
    running: Vec<ProcessId>,
    ended: bool,
}

impl World {
    fn new(spec: DynamicSupervisorSpec) -> World {
        World {
            state: DynamicSupervisorState::new(spec),
            ids: Counter::new(FIRST_DYN_CHILD_ID),
            now: 1_000,
            starts: 0,
            running: Vec::new(),
            ended: false,
        }
    }

    fn obey(&mut self, action: DynAction) {
        match action {
            DynAction::Nothing => {}
            DynAction::Start(pid) => {
                self.starts += 1;
                self.running.push(pid);
            }
            DynAction::Stop(pid) => {
                assert!(self.running.contains(&pid));
            }
            DynAction::StopAll => self.running.clear(),
        }
    }

    fn start(&mut self, spec: ChildSpec) -> Result<ProcessId, SupervisorError> {
        let (result, action) = self.state.start_child(ChildEntry::new(spec, ()), &mut self.ids);
        self.obey(action);
        result
    }

    fn terminate(&mut self, pid: ProcessId) -> Result<(), SupervisorError> {
        let (result, action) = self.state.terminate_child(pid);
        self.obey(action);
        result
    }

    fn exit(&mut self, pid: ProcessId, reason: ExitReason) {
        self.running.retain(|p| *p != pid);
        self.now += 1_000_000;
        let now = Instant::from_nanos(self.now);
        let (action, ended) = self.state.child_exited(pid, &reason, now, &mut self.ids);
        self.obey(action);
        self.ended = self.ended || ended;
    }
}

fn crash() -> ExitReason {
    ExitReason::Abnormal("crash".to_string())
}

#[test]
fn dynamic_supervisor_manages_many_children() {
    let mut world = World::new(DynamicSupervisorSpec::new());
    for i in 0..10 {
        world.start(ChildSpec::new(&format!("worker-{i}"))).unwrap();
    }

    let counts = world.state.count_children();
    assert_eq!(counts.active, 10);
    assert_eq!(counts.specs, 10);

    let children = world.state.which_children();
    let pids_to_terminate: Vec<ProcessId> =
        children.iter().filter_map(|c| c.pid).take(5).collect();
    for pid in pids_to_terminate {
        world.terminate(pid).unwrap();
        world.exit(pid, ExitReason::Normal);
    }

    let counts = world.state.count_children();
    assert_eq!(counts.active, 5);
}

#[test]
fn terminate_nonexistent_child_returns_error() {
    let mut world = World::new(DynamicSupervisorSpec::new());
    let bogus_pid = ProcessId::new(0, 0, 99999);
    assert!(world.terminate(bogus_pid).is_err());
}

#[test]
fn remove_running_child_returns_error() {
    let mut world = World::new(DynamicSupervisorSpec::new());
    let pid = world.start(ChildSpec::new("worker")).unwrap();

    let result = world.state.remove_child(pid);
    assert!(matches!(result, Err(SupervisorError::StillRunning(_))));
}

#[test]
fn transient_child_restarted_on_abnormal_exit() {
    let mut world = World::new(DynamicSupervisorSpec::new().max_restarts(10).max_seconds(5));
    let pid = world.start(ChildSpec::new("crasher").restart(RestartType::Transient)).unwrap();
    world.exit(pid, crash());
    assert!(
        world.starts >= 2,
        "expected at least 2 starts (original + restart), got {}",
        world.starts
    );
}

#[test]
fn transient_child_not_restarted_on_normal_exit() {
    let mut world = World::new(DynamicSupervisorSpec::new());
    let pid = world.start(ChildSpec::new("normal-exit").restart(RestartType::Transient)).unwrap();
    world.exit(pid, ExitReason::Normal);
    assert_eq!(
        world.starts, 1,
        "transient child should NOT restart on normal exit, got {} starts",
        world.starts
    );
}

#[test]
fn max_children_limit() {
    let mut world = World::new(DynamicSupervisorSpec::new().max_children(2));
    assert!(world.start(ChildSpec::new("w1")).is_ok());
    assert!(world.start(ChildSpec::new("w2")).is_ok());
    let result = world.start(ChildSpec::new("w3"));
    assert!(matches!(result, Err(SupervisorError::MaxChildren)));
    assert_eq!(world.starts, 2);
}

#[test]
fn dynamic_supervisor_integration_shutdown_stops_all_children() {
    let mut world = World::new(DynamicSupervisorSpec::new());
    for i in 0..5 {
        world.start(ChildSpec::new(&format!("w{i}"))).unwrap();
    }
    assert_eq!(world.state.count_children().active, 5);

    let (action, ended) = world.state.shut_down();
    assert_eq!(action, DynAction::StopAll);
    assert!(ended);
}

#[test]
fn panicked_child_restarted() {
    let mut world = World::new(DynamicSupervisorSpec::new().max_restarts(5).max_seconds(10));
    let pid = world.start(ChildSpec::new("panicker").restart(RestartType::Permanent)).unwrap();
    world.exit(pid, child_exit_reason(ChildOutcome::Panicked));
    assert_eq!(world.starts, 2);
}

#[test]
fn remove_child_happy_path() {
    let mut world = World::new(DynamicSupervisorSpec::new());
    let pid = world.start(ChildSpec::new("removable").restart(RestartType::Temporary)).unwrap();
    world.exit(pid, ExitReason::Normal);

    let counts = world.state.count_children();
    assert_eq!(counts.active, 0);
    assert_eq!(counts.specs, 1);

    world.state.remove_child(pid).unwrap();

    let counts = world.state.count_children();
    assert_eq!(counts.active, 0);
    assert_eq!(counts.specs, 0);
    assert!(matches!(world.state.remove_child(pid), Err(SupervisorError::NotFound(_))));
}

#[test]
fn which_children_after_restart() {
    let mut world = World::new(DynamicSupervisorSpec::new().max_restarts(5).max_seconds(10));
    let original_pid =
        world.start(ChildSpec::new("crasher").restart(RestartType::Permanent)).unwrap();
    world.exit(original_pid, ExitReason::Abnormal("crash once".into()));
    assert!(world.starts >= 2, "expected at least 2 starts");

    let children = world.state.which_children();
    assert_eq!(children.len(), 1);
    let new_pid = children[0].pid;
    assert!(new_pid.is_some(), "restarted child should be running");
    assert_ne!(new_pid.unwrap(), original_pid, "PID should change after restart");
}

#[test]
fn too_many_restarts_end_the_supervisor() {
    let mut world = World::new(DynamicSupervisorSpec::new().max_restarts(2).max_seconds(10));
    let mut pid = world.start(ChildSpec::new("crasher")).unwrap();
    for _ in 0..2 {
        world.exit(pid, crash());
        pid = world.running[0];
    }
    assert!(!world.ended);
    world.exit(pid, crash());
    assert!(world.ended);
    assert_eq!(world.starts, 3);
}

#[test]
fn messages_lead_to_steps() {
    let mut ids = Counter::new(FIRST_DYN_CHILD_ID);
    let now = Instant::from_nanos(0);
    let mut state: DynamicSupervisorState<u8> =
        DynamicSupervisorState::new(DynamicSupervisorSpec::new().max_children(1));
    let start = |factory: u8| {
        let entry = ChildEntry::new(ChildSpec::new("w").restart(RestartType::Permanent), factory);
        Some(DynSupervisorMsg::StartChild { entry })
    };
    let step = state.step(start(7), now, &mut ids);
    let pid = match step.reply {
        DynReply::Started(Ok(pid)) => pid,
        other => panic!("unexpected {:?}", other),
    };
    assert_eq!(step.action, DynAction::Start(pid));
    assert_eq!(state.factory(pid), Some(&7));
    assert!(matches!(
        state.step(start(8), now, &mut ids).reply,
        DynReply::Started(Err(SupervisorError::MaxChildren))
    ));
    let exited = DynSupervisorMsg::ChildExited { pid, reason: ExitReason::Kill };
    let step = state.step(Some(exited), now, &mut ids);
    let new_pid = match step.action {
        DynAction::Start(p) => p,
        other => panic!("unexpected {:?}", other),
    };
    assert_ne!(new_pid, pid);
    assert!(state.factory(pid).is_none());
    match state.step(Some(DynSupervisorMsg::WhichChildren), now, &mut ids).reply {
        DynReply::Infos(infos) => assert_eq!(infos[0].pid, Some(new_pid)),
        other => panic!("unexpected {:?}", other),
    }
    let step = state.step(Some(DynSupervisorMsg::RemoveChild { pid: new_pid }), now, &mut ids);
    assert!(matches!(step.reply, DynReply::Done(Err(SupervisorError::StillRunning(_)))));
    let step = state.step(Some(DynSupervisorMsg::TerminateChild { pid: new_pid }), now, &mut ids);
    assert_eq!(step.action, DynAction::Stop(new_pid));
    match state.step(Some(DynSupervisorMsg::CountChildren), now, &mut ids).reply {
        DynReply::Counts(counts) => assert_eq!((counts.active, counts.specs), (0, 1)),
        other => panic!("unexpected {:?}", other),
    }
    let step = state.step(None, now, &mut ids);
    assert!(step.ended);
    assert_eq!(step.action, DynAction::StopAll);
}

#[test]
fn start_child_returns_pid() {
    let mut world = World::new(DynamicSupervisorSpec::new());
    let pid = world.start(ChildSpec::new("worker")).unwrap();
    assert_eq!(pid.node_id(), 1);
}

#[test]
fn count_children_after_start() {
    let mut world = World::new(DynamicSupervisorSpec::new());
    for _ in 0..3 {
        world.start(ChildSpec::new("worker")).unwrap();
    }
    let counts = world.state.count_children();
    assert_eq!(counts.active, 3);
    assert_eq!(counts.specs, 3);
}

#[test]
fn terminate_child_stops_it() {
    let mut world = World::new(DynamicSupervisorSpec::new());
    let pid = world.start(ChildSpec::new("worker")).unwrap();
    world.terminate(pid).unwrap();
    world.exit(pid, ExitReason::Normal);
    assert_eq!(world.state.count_children().active, 0);
}

#[test]
fn remove_child_removes_spec() {
    let mut world = World::new(DynamicSupervisorSpec::new());
    let pid = world.start(ChildSpec::new("worker")).unwrap();
    world.terminate(pid).unwrap();
    world.exit(pid, ExitReason::Normal);
    world.state.remove_child(pid).unwrap();
    assert_eq!(world.state.count_children().specs, 0);
}

#[test]
fn which_children_lists_all() {
    let mut world = World::new(DynamicSupervisorSpec::new());
    world.start(ChildSpec::new("worker")).unwrap();
    world.start(ChildSpec::new("worker")).unwrap();
    assert_eq!(world.state.which_children().len(), 2);
}

#[test]
fn permanent_child_is_restarted() {
    let mut world = World::new(DynamicSupervisorSpec::new().max_restarts(10).max_seconds(5));
    world.start(ChildSpec::new("crasher").restart(RestartType::Permanent)).unwrap();
    while !world.ended {
        world.exit(world.running[0], crash());
    }
    assert!(world.starts >= 3, "expected at least 3 starts, got {}", world.starts);
    assert_eq!(world.starts, 11);
}

#[test]
fn temporary_child_not_restarted() {
    let mut world = World::new(DynamicSupervisorSpec::new());
    let pid = world.start(ChildSpec::new("crasher").restart(RestartType::Temporary)).unwrap();
    world.exit(pid, crash());
    assert_eq!(world.starts, 1, "temporary child should start exactly once");
}

#[test]
fn dynamic_shutdown_stops_all_children() {
    let mut world = World::new(DynamicSupervisorSpec::new());
    for _ in 0..5 {
        world.start(ChildSpec::new("worker")).unwrap();
    }
    let (action, ended) = world.state.shut_down();
    world.obey(action);
    assert!(ended);
    assert!(world.running.is_empty());
    assert_eq!(world.state.count_children().active, 0);
}
