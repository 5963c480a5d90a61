//! Routing between nodes.
use rebar::cluster::protocol::{Frame, MsgType};
use rebar::cluster::router::{
    deliver_inbound_frame, encode_send_frame, DistributedRouter, RouterCommand,
};
use rebar::process::mailbox::Mailbox;
use rebar::process::table::{ProcessHandle, ProcessTable};
use rebar::process::{ProcessId, SendError};
use rebar::router::MessageRouter;
use rebar::runtime::Runtime;
use rebar::term::Term;
use std::sync::Arc;

#[test]
fn distributed_router_routes_local() {
    let mut table = ProcessTable::new(1, 0);
    let pid = table.allocate_pid();
    let (tx, mut rx) = Mailbox::unbounded();
    table.insert(pid, ProcessHandle::new(tx));

    let (remote_tx, _remote_rx) = local_sync::mpsc::unbounded::channel();
    let router = DistributedRouter::new(1, remote_tx);

    let from = ProcessId::new(1, 0, 0);
    router
        .route(&table, from, pid, Term::from_text("local-msg"))
        .unwrap();

    let msg = rx.try_recv().unwrap();
    assert_eq!(msg.payload().as_str().unwrap(), "local-msg");
}

#[test]
fn distributed_router_routes_remote() {
    let table = ProcessTable::new(1, 0);
    let (remote_tx, mut remote_rx) = local_sync::mpsc::unbounded::channel();
    let router = DistributedRouter::new(1, remote_tx);

    let from = ProcessId::new(1, 0, 5);
    let remote_pid = ProcessId::new(2, 0, 10);

    router
        .route(&table, from, remote_pid, Term::from_text("remote-msg"))
        .unwrap();

    let cmd = futures::executor::block_on(remote_rx.recv()).unwrap();
    match cmd {
        RouterCommand::Send { node_id, frame } => {
            assert_eq!(node_id, 2);
            assert_eq!(frame.msg_type, MsgType::Send);
            assert_eq!(frame.payload, Term::from_text("remote-msg"));
        }
    }
}

#[test]
fn distributed_router_node_unreachable() {
    let table = ProcessTable::new(1, 0);
    let (remote_tx, remote_rx) = local_sync::mpsc::unbounded::channel();
    let router = DistributedRouter::new(1, remote_tx);

    // Drop receiver so send fails
    drop(remote_rx);

    let from = ProcessId::new(1, 0, 0);
    let remote_pid = ProcessId::new(2, 0, 1);

    let result = router.route(&table, from, remote_pid, Term::Nil);
    assert_eq!(result, Err(SendError::NodeUnreachable(2)));
}

#[test]
fn inbound_frame_delivers_to_local_process() {
    let mut table = ProcessTable::new(2, 0);
    let pid = table.allocate_pid();
    let (tx, mut rx) = Mailbox::unbounded();
    table.insert(pid, ProcessHandle::new(tx));

    let frame = encode_send_frame(
        ProcessId::new(1, 0, 5),
        pid,
        Term::from_text("from-remote"),
    );

    deliver_inbound_frame(&table, &frame).unwrap();

    let msg = rx.try_recv().unwrap();
    assert_eq!(msg.payload().as_str().unwrap(), "from-remote");
    assert_eq!(msg.from().node_id(), 1);
    assert_eq!(msg.from().local_id(), 5);
}

#[test]
fn messages_reach_processes_here_and_on_another_node_alike() {
    let (tx_a, mut commands_a) = local_sync::mpsc::unbounded::channel();
    let (tx_b, _commands_b) = local_sync::mpsc::unbounded::channel();
    let router_a = Arc::new(DistributedRouter::new(1, tx_a));
    let router_b = Arc::new(DistributedRouter::new(2, tx_b));
    let mut node_a = Runtime::with_router(1, ProcessTable::new(1, 0), router_a);
    let mut node_b = Runtime::with_router(2, ProcessTable::new(2, 0), router_b);
    let sender = node_a.spawn();
    let mut near = node_a.spawn();
    let mut far = node_b.spawn();

    sender.send(&node_a, near.self_pid(), Term::from_text("near")).unwrap();
    let msg = near.try_recv().unwrap();
    assert_eq!(msg.payload().as_str(), Some("near"));
    assert_eq!(msg.from(), sender.self_pid());
    assert!(msg.timestamp().unwrap() > 1_600_000_000_000);

    sender.send(&node_a, far.self_pid(), Term::from_text("far")).unwrap();
    assert!(far.try_recv().is_none());
    let RouterCommand::Send { node_id, frame } =
        futures::executor::block_on(commands_a.recv()).unwrap();
    assert_eq!(node_id, 2);
    let arrived = Frame::decode(&frame.encode()).unwrap();
    deliver_inbound_frame(node_b.table(), &arrived).unwrap();
    let msg = far.try_recv().unwrap();
    assert_eq!(msg.payload().as_str(), Some("far"));
    assert_eq!(msg.from(), sender.self_pid());

    let dead = ProcessId::new(1, 0, 99);
    assert_eq!(node_a.send(dead, Term::Nil), Err(SendError::ProcessDead(dead)));
}

#[test]
fn a_sender_on_another_thread_comes_back_on_the_first() {
    let mut table = ProcessTable::new(2, 0);
    let pid = table.allocate_pid();
    let (tx, mut rx) = Mailbox::unbounded();
    table.insert(pid, ProcessHandle::new(tx));
    let frame = encode_send_frame(ProcessId::new(1, 3, 5), pid, Term::from_u64(9));
    deliver_inbound_frame(&table, &frame).unwrap();
    let msg = rx.try_recv().unwrap();
    assert_eq!(msg.from(), ProcessId::new(1, 0, 5));
    assert_eq!(msg.payload().as_u64(), Some(9));
    assert!(msg.timestamp().is_some());
    assert!(rx.try_recv().is_none());
    let lost = ProcessId::new(2, 0, 99);
    let frame = encode_send_frame(ProcessId::new(1, 0, 5), lost, Term::Nil);
    assert_eq!(deliver_inbound_frame(&table, &frame), Err(SendError::ProcessDead(lost)));
}

#[test]
fn encode_send_frame_has_correct_fields() {
    let from = ProcessId::new(1, 0, 5);
    let to = ProcessId::new(2, 0, 10);
    let frame = encode_send_frame(from, to, Term::from_u64(42));

    assert_eq!(frame.version, 1);
    assert_eq!(frame.msg_type, MsgType::Send);
    assert_eq!(frame.payload, Term::from_u64(42));
    let header = frame.header.as_map().unwrap();
    assert_eq!(header.len(), 4);
}

#[test]
fn malformed_header_type() {
    let table = ProcessTable::new(1, 0);
    let frame = Frame {
        version: 1,
        msg_type: MsgType::Send,
        request_id: 0,
        header: Term::from_text("not-a-map"),
        payload: Term::Nil,
    };
    let result = deliver_inbound_frame(&table, &frame);
    assert_eq!(result, Err(SendError::MalformedFrame("frame header must be a Map")));
}

#[test]
fn malformed_field_type() {
    let table = ProcessTable::new(1, 0);
    let frame = Frame {
        version: 1,
        msg_type: MsgType::Send,
        request_id: 0,
        header: Term::Mapping(vec![(
            Term::from_text("from_node"),
            Term::from_text("not-a-u64"),
        )]),
        payload: Term::Nil,
    };
    let result = deliver_inbound_frame(&table, &frame);
    assert_eq!(result, Err(SendError::MalformedFrame("from_node must be u64")));
}

#[test]
fn missing_fields_returns_malformed_frame() {
    let table = ProcessTable::new(1, 0);
    let frame = Frame {
        version: 1,
        msg_type: MsgType::Send,
        request_id: 0,
        header: Term::Mapping(vec![]),
        payload: Term::Nil,
    };
    let result = deliver_inbound_frame(&table, &frame);
    assert_eq!(
        result,
        Err(SendError::MalformedFrame("missing required addressing fields: to_node and to_local"))
    );
}
