//! The runtime of a node, its events and its threads.
use rebar::bridge::{open_channels, CrossThreadMessage, ThreadBridge};
use rebar::events::{EventBus, LifecycleEvent};
use rebar::io::IoErrorKind;
use rebar::multi::thread_plan;
use rebar::process::table::ProcessTable;
use rebar::process::{ExitReason, Message, ProcessId, SendError};
use rebar::router::{LocalRouter, MessageRouter, RouterKind};
use rebar::runtime::{built, Runtime, RuntimeBuilder};
use rebar::term::Term;
use std::collections::HashSet;
use std::sync::atomic::{AtomicU64, Ordering};
use std::sync::Arc;
use tokio::sync::broadcast::error::TryRecvError;

#[test]
fn spawn_returns_pid() {
    let mut rt = Runtime::new(1);
    let ctx = rt.spawn();
    assert_eq!(ctx.self_pid().node_id(), 1);
    assert_eq!(ctx.self_pid().local_id(), 1);
}

#[test]
fn spawn_multiple_unique_pids() {
    let mut rt = Runtime::new(1);
    let pid1 = rt.spawn().self_pid();
    let pid2 = rt.spawn().self_pid();
    assert_ne!(pid1, pid2);
}

#[test]
fn send_message_between_processes() {
    let mut rt = Runtime::new(1);
    let mut receiver = rt.spawn();
    let sender = rt.spawn();
    rt.send_from(sender.self_pid(), receiver.self_pid(), Term::from_text("hello")).unwrap();
    let msg = receiver.try_recv().unwrap();
    assert_eq!(msg.payload().as_str().unwrap(), "hello");
    assert_eq!(msg.from(), sender.self_pid());
    assert!(msg.timestamp().is_none());
}

#[test]
fn runtime_send_to_dead_process_returns_error() {
    let rt = Runtime::new(1);
    let result = rt.send(ProcessId::new(1, 0, 999), Term::Nil);
    assert!(result.is_err());
}

#[test]
fn process_can_send_to_self() {
    let mut rt = Runtime::new(1);
    let mut ctx = rt.spawn();
    let me = ctx.self_pid();
    rt.send_from(me, me, Term::from_text("self-msg")).unwrap();
    assert_eq!(ctx.try_recv().unwrap().payload().as_str().unwrap(), "self-msg");
    assert!(ctx.try_recv().is_none());
}

#[test]
fn spawn_100_processes() {
    let mut rt = Runtime::new(1);
    let pids: HashSet<ProcessId> = (0..100).map(|_| rt.spawn().self_pid()).collect();
    assert_eq!(pids.len(), 100);
    assert_eq!(rt.table().len(), 100);
}

#[test]
fn spawn_cleanup_after_normal_exit() {
    let mut rt = Runtime::new(1);
    let pid = rt.spawn().self_pid();
    rt.finished(pid, ExitReason::Normal);
    assert!(!rt.table().is_alive(&pid));
}

#[test]
fn spawn_cleanup_after_panic() {
    let mut rt = Runtime::new(1);
    let pid = rt.spawn().self_pid();
    let other = rt.spawn().self_pid();
    rt.finished(pid, ExitReason::Abnormal("test panic".to_string()));
    assert!(!rt.table().is_alive(&pid));
    assert!(rt.table().is_alive(&other));
    assert!(matches!(rt.send(pid, Term::Nil), Err(SendError::ProcessDead(_))));
}

#[test]
fn node_id_accessor() {
    let rt = Runtime::new(42);
    assert_eq!(rt.node_id(), 42);
}

#[test]
fn multiple_messages_to_same_process() {
    let mut rt = Runtime::new(1);
    let mut ctx = rt.spawn();
    for i in 1..=5u64 {
        rt.send(ctx.self_pid(), Term::from_u64(i)).unwrap();
    }
    let mut sum = 0;
    while let Some(msg) = ctx.try_recv() {
        assert_eq!(msg.from(), ProcessId::new(1, 0, 0));
        sum += msg.payload().as_u64().unwrap();
    }
    assert_eq!(sum, 15);
}

struct CountingRouter {
    count: AtomicU64,
    inner: LocalRouter,
}

impl MessageRouter for CountingRouter {
    fn route(
        &self,
        home: &ProcessTable,
        from: ProcessId,
        to: ProcessId,
        payload: Term,
    ) -> Result<(), SendError> {
        self.count.fetch_add(1, Ordering::Relaxed);
        self.inner.route(home, from, to, payload)
    }
}

fn counting() -> CountingRouter {
    CountingRouter { count: AtomicU64::new(0), inner: LocalRouter::new() }
}

#[test]
fn runtime_with_custom_router() {
    let router = Arc::new(counting());
    let mut rt = Runtime::with_router(1, ProcessTable::new(1, 0), Arc::clone(&router));
    let mut receiver = rt.spawn();
    let sender = rt.spawn();
    sender.send(&rt, receiver.self_pid(), Term::from_text("routed")).unwrap();
    let msg = receiver.try_recv().unwrap();
    assert_eq!(msg.payload().as_str().unwrap(), "routed");
    assert_eq!(msg.from(), sender.self_pid());
    assert!(router.count.load(Ordering::Relaxed) > 0);
    assert!(rt.send(ProcessId::new(1, 0, 999), Term::Nil).is_err());
    assert_eq!(router.count.load(Ordering::Relaxed), 2);
}

#[test]
fn runtime_with_router_accepts_arc() {
    let router = Arc::new(LocalRouter::new());
    let rt = Runtime::with_router(1, ProcessTable::new(1, 0), router);
    assert_eq!(rt.node_id(), 1);
}

#[test]
fn message_router_requires_send_sync() {
    fn assert_router_send_sync<T: MessageRouter + Send + Sync>() {}
    assert_router_send_sync::<LocalRouter>();
}

#[test]
fn local_router_is_send_sync() {
    fn assert_send_sync<T: Send + Sync>() {}
    assert_send_sync::<LocalRouter>();
}

#[test]
fn runtime_is_send_sync() {
    fn assert_send_sync<T: Send + Sync>() {}
    assert_send_sync::<Runtime<LocalRouter>>();
}

#[test]
fn process_context_send_returns_error_for_dead_target() {
    let mut rt = Runtime::new(1);
    let ctx = rt.spawn();
    let result = ctx.send(&rt, ProcessId::new(1, 0, 999), Term::Nil);
    assert!(result.is_err());
}

#[test]
fn a_router_of_either_kind_routes() {
    let mut rt = Runtime::new(1);
    let mut context = rt.spawn();
    let (nobody, pid) = (ProcessId::new(1, 0, 4), context.self_pid());
    let local: RouterKind<CountingRouter> = RouterKind::Local(LocalRouter::new());
    assert!(local.route(rt.table(), nobody, nobody, Term::Nil).is_err());
    local.route(rt.table(), nobody, pid, Term::from_u64(3)).unwrap();
    assert_eq!(context.try_recv().unwrap().payload().as_u64(), Some(3));
    let custom = Arc::new(counting());
    let kind = RouterKind::Custom(Arc::clone(&custom));
    assert!(kind.route(rt.table(), nobody, nobody, Term::Nil).is_err());
    assert_eq!(custom.count.load(Ordering::Relaxed), 1);
}

#[test]
fn runtime_builder_default_builds() {
    let (tokio_rt, mut rebar_rt) = RuntimeBuilder::new(1).build().unwrap();
    assert_eq!(rebar_rt.node_id(), 1);
    tokio_rt.block_on(async {
        let pid = rebar_rt.spawn().self_pid();
        assert_eq!(pid.node_id(), 1);
    });
}

#[test]
fn runtime_builder_custom_threads() {
    let (tokio_rt, mut rebar_rt) = RuntimeBuilder::new(2).worker_threads(2).build().unwrap();
    assert_eq!(rebar_rt.node_id(), 2);
    tokio_rt.block_on(async {
        let pid = rebar_rt.spawn().self_pid();
        assert_eq!(pid.node_id(), 2);
    });
    assert_eq!(tokio_rt.metrics().num_workers(), 2);
}

#[test]
fn runtime_builder_thread_name() {
    let (tokio_rt, _rebar_rt) = RuntimeBuilder::new(1).thread_name("rebar-test").build().unwrap();
    drop(tokio_rt);
}

#[test]
fn runtime_builder_new_takes_node_id() {
    let _builder = RuntimeBuilder::new(1);
}

#[test]
fn runtime_builder_has_worker_threads() {
    let _builder = RuntimeBuilder::new(1).worker_threads(4);
}

#[test]
fn runtime_builder_has_thread_name() {
    let _builder = RuntimeBuilder::new(1).thread_name("test");
}

#[test]
fn runtime_builder_build_returns_pair() {
    let (tokio_rt, rebar_rt) = RuntimeBuilder::new(1).build().unwrap();
    assert_eq!(rebar_rt.node_id(), 1);
    drop(tokio_rt);
}

#[test]
fn emit_and_subscribe() {
    let bus = EventBus::new(16);
    let mut rx = bus.subscribe();

    let pid = ProcessId::new(1, 0, 1);
    bus.emit(LifecycleEvent::ProcessSpawned {
        pid,
        parent: None,
        name: Some("test".into()),
        timestamp: LifecycleEvent::now(),
    });

    let event = rx.try_recv().unwrap();
    match event {
        LifecycleEvent::ProcessSpawned { pid: p, name, .. } => {
            assert_eq!(p, pid);
            assert_eq!(name.as_deref(), Some("test"));
        }
        _ => panic!("unexpected event"),
    }
}

#[test]
fn no_subscribers_does_not_panic() {
    let bus = EventBus::new(16);
    bus.emit(LifecycleEvent::ProcessExited {
        pid: ProcessId::new(1, 0, 1),
        reason: ExitReason::Normal,
        timestamp: LifecycleEvent::now(),
    });
}

#[test]
fn runtime_emits_spawn_and_exit_events() {
    let bus = EventBus::new(64);
    let mut rx = bus.subscribe();

    let mut rt = Runtime::new(1).with_event_bus(bus);
    assert!(rt.event_bus().is_some());
    let pid = rt.spawn().self_pid();
    rt.finished(pid, ExitReason::Normal);

    match rx.try_recv().unwrap() {
        LifecycleEvent::ProcessSpawned { pid: p, timestamp, .. } => {
            assert_eq!(p, pid);
            assert!(timestamp > 1_600_000_000_000);
        }
        other => panic!("expected ProcessSpawned, got {:?}", other),
    }
    match rx.try_recv().unwrap() {
        LifecycleEvent::ProcessExited { pid: p, reason: ExitReason::Normal, .. } => {
            assert_eq!(p, pid)
        }
        other => panic!("expected ProcessExited(Normal), got {:?}", other),
    }
}

#[test]
fn multiple_subscribers() {
    let bus = EventBus::new(16);
    let mut rx1 = bus.subscribe();
    let mut rx2 = bus.subscribe();

    bus.clone().emit(LifecycleEvent::ProcessSpawned {
        pid: ProcessId::new(1, 0, 1),
        parent: None,
        name: None,
        timestamp: LifecycleEvent::now(),
    });

    assert!(rx1.try_recv().is_ok());
    assert!(rx2.try_recv().is_ok());
}

#[test]
fn a_bus_keeps_its_capacity_rounded_up() {
    let bus = EventBus::new(3);
    let mut rx = bus.subscribe();
    for local in 0..5 {
        bus.emit(LifecycleEvent::ProcessExited {
            pid: ProcessId::new(1, 0, local),
            reason: ExitReason::Normal,
            timestamp: 0,
        });
    }
    assert_eq!(rx.try_recv().unwrap_err(), TryRecvError::Lagged(1));
    for local in 1..5 {
        match rx.try_recv().unwrap() {
            LifecycleEvent::ProcessExited { pid, .. } => assert_eq!(pid.local_id(), local),
            other => panic!("unexpected {:?}", other),
        }
    }
    assert_eq!(rx.try_recv().unwrap_err(), TryRecvError::Empty);
}

#[test]
fn a_node_is_built_where_its_threads_start() {
    let started = tokio::runtime::Builder::new_current_thread().build();
    let (_threads, rt) = built(7, started).ok().unwrap();
    assert_eq!(rt.node_id(), 7);
    assert_eq!(rt.table().len(), 0);
    let refused = std::io::Error::new(std::io::ErrorKind::Unsupported, "no threads");
    let error = built(7, Err(refused)).err().unwrap();
    assert_eq!(error.kind, IoErrorKind::Unsupported);
    assert_eq!(error.message, "no threads");
}

#[test]
fn a_message_crosses_to_the_thread_it_is_for() {
    let (senders, mut receivers) = open_channels(2);
    assert!(senders.iter().all(|tx| tx.capacity().is_none()));
    let senders = Arc::new(senders);
    let one = ThreadBridge::new(Arc::clone(&senders), receivers.pop().unwrap(), 1);
    let zero = ThreadBridge::new(senders, receivers.pop().unwrap(), 0);
    assert_eq!(one.thread_id(), 1);
    let target_pid = ProcessId::new(1, 1, 5);
    let message = Message::new_internal(ProcessId::new(1, 0, 2), Term::from_text("over"));
    assert!(zero.send_to_thread(1, CrossThreadMessage { target_pid, message }).is_ok());
    assert!(zero.try_recv().is_none());
    let got = one.try_recv().unwrap();
    assert_eq!(got.target_pid, target_pid);
    assert_eq!(got.message.payload().as_str(), Some("over"));
}

#[test]
fn a_message_to_a_thread_that_ended_comes_back() {
    let (tx0, rx0) = crossbeam_channel::unbounded();
    let (tx1, rx1) = crossbeam_channel::unbounded::<CrossThreadMessage>();
    drop(rx1);
    let zero = ThreadBridge::new(Arc::new(vec![tx0, tx1]), rx0, 0);
    let target_pid = ProcessId::new(1, 1, 5);
    let message = Message::new_internal(ProcessId::new(1, 0, 2), Term::from_u64(3));
    let back = zero.send_to_thread(1, CrossThreadMessage { target_pid, message }).err().unwrap();
    assert_eq!(back.target_pid, target_pid);
    assert_eq!(back.message.payload().as_u64(), Some(3));
}

#[test]
fn threads_are_numbered_and_named_from_zero_on() {
    let plan = thread_plan(12);
    assert_eq!(plan.len(), 12);
    assert_eq!(plan[0].thread_id, 0);
    assert_eq!(plan[0].name, "rebar-0");
    assert_eq!(plan[11].thread_id, 11);
    assert_eq!(plan[11].name, "rebar-11");
}
