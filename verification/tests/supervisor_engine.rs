//! The supervisor of a fixed order of children.
use rebar::counter::Counter;
use rebar::process::{ExitReason, ProcessId};
use rebar::runtime::Runtime;
use rebar::supervisor::common::{
    answer_or_gone, check_restart_limit, child_exit_reason, outcome_or_gone, ChildOutcome,
    SupervisorHandle,
};
use rebar::supervisor::engine::{
    Action, ChildEntry, Reply, Step, SupervisorMsg, SupervisorState, FIRST_CHILD_ID,
};
use rebar::supervisor::{ChildSpec, RestartStrategy, RestartType, SupervisorError, SupervisorSpec};
use rebar::time::Instant;
use std::collections::VecDeque;

/// A supervisor with what happened to its children.
struct World {
    state: SupervisorState<()>,
    ids: Counter,
    now: u64,
    starts: Vec<usize>,
    stops: Vec<usize>,
    pids: Vec<Option<ProcessId>>,
    ended: bool,
}

impl World {
    fn start(spec: SupervisorSpec, children: Vec<ChildSpec>) -> World {
        let mut ids = Counter::new(FIRST_CHILD_ID);
        let entries = children.into_iter().map(|c| ChildEntry::new(c, ())).collect();
        let (state, actions) = SupervisorState::start(spec, entries, &mut ids);
        let mut world = World {
            state,
            ids,
            now: 1_000,
            starts: Vec::new(),
            stops: Vec::new(),
            pids: Vec::new(),
            ended: false,
        };
        world.obey(actions);
        world
    }

    fn obey(&mut self, actions: Vec<Action>) {
        for action in actions {
            match action {
                Action::Start { index, pid } => {
                    while self.pids.len() <= index {
                        self.pids.push(None);
                    }
                    self.starts.push(index);
                    self.pids[index] = Some(pid);
                }
                Action::Stop { index, pid, .. } => {
                    assert_eq!(self.pids[index], Some(pid));
                    self.stops.push(index);
                    self.pids[index] = None;
                }
            }
        }
    }

    fn tell(&mut self, msg: SupervisorMsg<()>) -> Reply {
        self.now += 1_000_000;
        let now = Instant::from_nanos(self.now);
        let Step { actions, reply, ended } = self.state.step(Some(msg), now, &mut self.ids);
        self.obey(actions);
        self.ended = self.ended || ended;
        reply
    }

    fn exit(&mut self, index: usize, reason: ExitReason) {
        let child_id = self.state.children[index].spec.id.clone();
        let pid = self.pids[index].take().unwrap();
        self.tell(SupervisorMsg::ChildExited { child_id, pid, reason });
    }

    fn starts_of(&self, index: usize) -> usize {
        self.starts.iter().filter(|i| **i == index).count()
    }
}

fn three(strategy: RestartStrategy) -> World {
    World::start(
        SupervisorSpec::new(strategy).max_restarts(5).max_seconds(10),
        vec![ChildSpec::new("a"), ChildSpec::new("b"), ChildSpec::new("c")],
    )
}

fn crash() -> ExitReason {
    ExitReason::Abnormal("crash".to_string())
}

#[test]
fn supervisor_starts_children_in_order() {
    let world = World::start(
        SupervisorSpec::new(RestartStrategy::OneForOne),
        (0..3).map(|i| ChildSpec::new(&format!("child_{}", i))).collect(),
    );
    assert_eq!(world.starts, vec![0, 1, 2]);
}

#[test]
fn supervisor_is_a_process_with_pid() {
    let mut rt = Runtime::new(1);
    let handle = SupervisorHandle::new(rt.spawn().self_pid(), ());
    assert!(rt.table().is_alive(&handle.pid()));
    assert_eq!(handle.pid().node_id(), 1);
    assert!(handle.pid().local_id() > 0);
}

#[test]
fn one_for_one_restarts_only_failed_child() {
    let mut world = World::start(
        SupervisorSpec::new(RestartStrategy::OneForOne).max_restarts(5).max_seconds(10),
        vec![ChildSpec::new("child_0"), ChildSpec::new("child_1")],
    );
    world.exit(0, crash());
    assert_eq!(world.starts_of(0), 2);
    assert_eq!(world.starts_of(1), 1);
    assert!(world.stops.is_empty());
    assert!(!world.ended);
}

#[test]
fn max_restarts_within_window_escalates() {
    let mut world = World::start(
        SupervisorSpec::new(RestartStrategy::OneForOne).max_restarts(2).max_seconds(10),
        vec![ChildSpec::new("crasher")],
    );
    while !world.ended {
        world.exit(0, crash());
    }
    assert_eq!(world.starts_of(0), 3);
}

#[test]
fn one_for_one_temporary_child_never_restarts() {
    let mut world = World::start(
        SupervisorSpec::new(RestartStrategy::OneForOne).max_restarts(10).max_seconds(10),
        vec![ChildSpec::new("tmp").restart(RestartType::Temporary)],
    );
    world.exit(0, crash());
    assert_eq!(world.starts_of(0), 1);
    assert!(!world.ended);
}

#[test]
fn supervisor_restarts_panicked_child() {
    let mut world = World::start(
        SupervisorSpec::new(RestartStrategy::OneForOne).max_restarts(5).max_seconds(10),
        vec![ChildSpec::new("panicker")],
    );
    let reason = child_exit_reason(ChildOutcome::Panicked);
    assert!(!reason.is_normal());
    world.exit(0, reason);
    assert_eq!(world.starts_of(0), 2);
}

#[test]
fn add_children_batch() {
    let mut world = World::start(
        SupervisorSpec::new(RestartStrategy::OneForOne).max_restarts(5).max_seconds(10),
        vec![],
    );
    let entries = (0..5).map(|i| ChildEntry::new(ChildSpec::new(&format!("batch-{}", i)), ()));
    let reply = world.tell(SupervisorMsg::AddChildren { entries: entries.collect() });
    match reply {
        Reply::StartedAll(pids) => assert_eq!(pids.len(), 5),
        other => panic!("unexpected {:?}", other),
    }
    assert_eq!(world.starts, vec![0, 1, 2, 3, 4]);
}

#[test]
fn supervisor_one_for_all_cascade() {
    let mut world = three(RestartStrategy::OneForAll);
    world.exit(1, crash());
    assert_eq!(world.stops, vec![2, 0]);
    assert_eq!(world.starts, vec![0, 1, 2, 0, 1, 2]);
}

#[test]
fn rest_for_one_spares_the_earlier_children() {
    let mut world = three(RestartStrategy::RestForOne);
    let first = world.pids[0];
    world.exit(1, crash());
    assert_eq!(world.stops, vec![2]);
    assert_eq!(world.starts, vec![0, 1, 2, 1, 2]);
    assert_eq!(world.pids[0], first);
}

#[test]
fn an_exit_of_an_old_process_changes_nothing() {
    let mut world = three(RestartStrategy::OneForOne);
    let old = world.pids[0].unwrap();
    world.exit(0, crash());
    let starts = world.starts.clone();
    world.tell(SupervisorMsg::ChildExited {
        child_id: "a".to_string(),
        pid: old,
        reason: crash(),
    });
    assert_eq!(world.starts, starts);
    assert!(!world.ended);
}

#[test]
fn children_are_stopped_restarted_and_deleted_by_name() {
    let mut world = three(RestartStrategy::OneForOne);
    let reply = world.tell(SupervisorMsg::DeleteChild { id: "b".to_string() });
    assert!(matches!(reply, Reply::Done(Err(SupervisorError::StillRunning(_)))));
    let reply = world.tell(SupervisorMsg::TerminateChild { id: "b".to_string() });
    assert!(matches!(reply, Reply::Done(Ok(()))));
    assert_eq!(world.stops, vec![1]);
    match world.tell(SupervisorMsg::CountChildren) {
        Reply::Counts(counts) => {
            assert_eq!(counts.specs, 3);
            assert_eq!(counts.active, 2);
        }
        other => panic!("unexpected {:?}", other),
    }
    let reply = world.tell(SupervisorMsg::RestartChild { id: "b".to_string() });
    assert!(matches!(reply, Reply::Done(Ok(()))));
    assert_eq!(world.starts_of(1), 2);
    world.tell(SupervisorMsg::TerminateChild { id: "b".to_string() });
    let reply = world.tell(SupervisorMsg::DeleteChild { id: "b".to_string() });
    assert!(matches!(reply, Reply::Done(Ok(()))));
    match world.tell(SupervisorMsg::WhichChildren) {
        Reply::Infos(infos) => {
            let ids: Vec<&str> = infos.iter().map(|i| i.id.as_str()).collect();
            assert_eq!(ids, vec!["a", "c"]);
            assert!(infos.iter().all(|i| i.pid.is_some()));
        }
        other => panic!("unexpected {:?}", other),
    }
    let reply = world.tell(SupervisorMsg::TerminateChild { id: "zzz".to_string() });
    match reply {
        Reply::Done(Err(e)) => assert_eq!(e.to_string(), "child not found: zzz"),
        other => panic!("unexpected {:?}", other),
    }
}

#[test]
fn shutdown_stops_the_last_child_first() {
    let mut world = three(RestartStrategy::OneForOne);
    world.tell(SupervisorMsg::Shutdown);
    assert!(world.ended);
    assert_eq!(world.stops, vec![2, 1, 0]);
}

#[test]
fn a_supervisor_nobody_can_reach_shuts_down() {
    let mut world = three(RestartStrategy::OneForOne);
    let step = world.state.step(None, Instant::from_nanos(9_000_000), &mut world.ids);
    assert!(step.ended);
    assert_eq!(step.actions.len(), 3);
}

#[test]
fn restarts_leave_the_window() {
    let mut times = VecDeque::new();
    let second = 1_000_000_000;
    assert!(check_restart_limit(&mut times, 2, 5, Instant::from_nanos(second)));
    assert!(check_restart_limit(&mut times, 2, 5, Instant::from_nanos(2 * second)));
    assert!(!check_restart_limit(&mut times, 2, 5, Instant::from_nanos(3 * second)));
    assert!(check_restart_limit(&mut times, 2, 5, Instant::from_nanos(60 * second)));
}

#[test]
fn a_supervisor_that_does_not_answer_is_gone() {
    assert_eq!(answer_or_gone(Some(3)).unwrap(), 3);
    let gone = answer_or_gone::<u8>(None).unwrap_err();
    assert_eq!(gone.to_string(), "supervisor gone");
    assert_eq!(outcome_or_gone(Some(Ok(4))).unwrap(), 4);
    assert!(matches!(outcome_or_gone::<u8>(None), Err(SupervisorError::Gone)));
}
