//! Leaving a cluster.
use rebar::cluster::addr::SocketAddr;
use rebar::cluster::drain::{
    outbound_step, DrainConfig, DrainEvent, DrainResult, DrainStep, NodeDrain,
};
use rebar::cluster::protocol::{Frame, MsgType};
use rebar::cluster::registry::Registry;
use rebar::cluster::router::RouterCommand;
use rebar::cluster::swim::gossip::{GossipQueue, GossipUpdate};
use rebar::process::ProcessId;
use rebar::term::Term;
use rebar::time::Duration;

fn test_addr() -> SocketAddr {
    SocketAddr::v4(127, 0, 0, 1, 4000)
}

#[test]
fn drain_config_defaults() {
    let config = DrainConfig::default();
    assert_eq!(config.announce_timeout, Duration::from_secs(5));
    assert_eq!(config.drain_timeout, Duration::from_secs(30));
    assert_eq!(config.shutdown_timeout, Duration::from_secs(10));
}

#[test]
fn drain_config_custom() {
    let config = DrainConfig {
        announce_timeout: Duration::from_secs(1),
        drain_timeout: Duration::from_secs(10),
        shutdown_timeout: Duration::from_secs(5),
    };
    assert_eq!(config.announce_timeout, Duration::from_secs(1));
}

#[test]
fn drain_result_fields() {
    let result = DrainResult {
        processes_stopped: 10,
        messages_drained: 50,
        phase_durations: [
            Duration::from_millis(100),
            Duration::from_millis(500),
            Duration::from_millis(200),
        ],
        timed_out: false,
    };
    assert_eq!(result.processes_stopped, 10);
    assert_eq!(result.messages_drained, 50);
    assert!(!result.timed_out);
}

#[test]
fn drain_broadcasts_leave() {
    let drain = NodeDrain::new(DrainConfig::default());
    let mut gossip = GossipQueue::new();
    let mut registry = Registry::new();

    drain.announce(1, test_addr(), &mut gossip, &mut registry);

    let updates = gossip.drain(10);
    assert_eq!(updates.len(), 1);
    assert!(matches!(updates[0], GossipUpdate::Leave { node_id: 1, .. }));
}

#[test]
fn drain_unregisters_names() {
    let drain = NodeDrain::new(DrainConfig::default());
    let mut gossip = GossipQueue::new();
    let mut registry = Registry::new();

    registry.register("service_a", ProcessId::new(1, 0, 1), 1, 100);
    registry.register("service_b", ProcessId::new(1, 0, 2), 1, 101);
    registry.register("service_c", ProcessId::new(2, 0, 1), 2, 102);

    assert_eq!(registry.registered().len(), 3);

    let removed = drain.announce(1, test_addr(), &mut gossip, &mut registry);

    assert_eq!(removed, 2);
    assert_eq!(registry.registered().len(), 1);
    assert!(registry.lookup("service_c").is_some());
    assert!(registry.lookup("service_a").is_none());
    assert!(registry.lookup("service_b").is_none());
}

fn command(request_id: u64) -> RouterCommand {
    RouterCommand::Send {
        node_id: 2,
        frame: Frame {
            version: 1,
            msg_type: MsgType::Send,
            request_id,
            header: Term::Nil,
            payload: Term::Nil,
        },
    }
}

#[test]
fn drain_waits_for_inflight() {
    let drain = NodeDrain::new(DrainConfig {
        drain_timeout: Duration::from_secs(5),
        ..DrainConfig::default()
    });
    let mut drained = 0;
    for i in 0..3 {
        assert!(drain.outbound_wait(Duration::from_millis(i)).is_some());
        match outbound_step(&mut drained, DrainEvent::Command(command(i))) {
            DrainStep::Route { node_id, frame } => {
                assert_eq!(node_id, 2);
                assert_eq!(frame.request_id, i);
            }
            DrainStep::Finished { .. } => panic!("ended early"),
        }
    }
    match outbound_step(&mut drained, DrainEvent::Closed) {
        DrainStep::Finished { drained: count, timed_out } => {
            assert_eq!(count, 3);
            assert!(!timed_out);
        }
        DrainStep::Route { .. } => panic!("nothing left to send"),
    }
}

#[test]
fn drain_respects_timeout() {
    let drain = NodeDrain::new(DrainConfig {
        drain_timeout: Duration::from_millis(100),
        ..DrainConfig::default()
    });
    assert_eq!(drain.outbound_wait(Duration::zero()), Some(Duration::from_millis(100)));
    assert_eq!(drain.outbound_wait(Duration::from_millis(40)), Some(Duration::from_millis(60)));
    assert_eq!(drain.outbound_wait(Duration::from_millis(100)), None);
    let mut drained = 0;
    match outbound_step(&mut drained, DrainEvent::TimedOut) {
        DrainStep::Finished { drained: count, timed_out } => {
            assert_eq!(count, 0);
            assert!(timed_out);
        }
        DrainStep::Route { .. } => panic!("nothing to send"),
    }
}
