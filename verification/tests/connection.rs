//! Connections to other nodes, and frames on a stream.
use rebar::cluster::addr::SocketAddr;
use rebar::cluster::connection::{
    ConnectionError, ConnectionEvent, ConnectionManager, ReconnectPolicy,
};
use rebar::cluster::protocol::{Frame, MsgType};
use rebar::cluster::transport::tcp::{
    frame_length, length_prefix, received_frame, LengthRead, TcpConnection,
};
use rebar::cluster::transport::TransportError;
use rebar::io::{IoError, IoErrorKind};
use rebar::term::Term;
use rebar::time::Duration;
use std::cell::RefCell;
use std::rc::Rc;

/// A connection that records what is sent through it.
struct Recorder {
    sent: Rc<RefCell<Vec<Vec<u8>>>>,
}

/// Makes connections and counts them.
struct Connector {
    sent: Rc<RefCell<Vec<Vec<u8>>>>,
    count: u32,
}

impl Connector {
    fn new() -> Self {
        Self { sent: Rc::new(RefCell::new(Vec::new())), count: 0 }
    }

    fn connect(&mut self) -> Result<Recorder, TransportError> {
        self.count += 1;
        Ok(Recorder { sent: Rc::clone(&self.sent) })
    }

    fn refuse(&mut self) -> Result<Recorder, TransportError> {
        self.count += 1;
        Err(TransportError::Io(IoError {
            kind: IoErrorKind::Other,
            message: "mock connection refused".to_string(),
        }))
    }

    fn sent(&self) -> Vec<Vec<u8>> {
        self.sent.borrow().clone()
    }
}

fn test_addr(port: u16) -> SocketAddr {
    SocketAddr::v4(127, 0, 0, 1, port)
}

fn heartbeat_frame() -> Frame {
    Frame {
        version: 1,
        msg_type: MsgType::Heartbeat,
        request_id: 0,
        header: Term::Nil,
        payload: Term::Nil,
    }
}

fn send_frame(payload: &str) -> Frame {
    Frame {
        version: 1,
        msg_type: MsgType::Send,
        request_id: 0,
        header: Term::Nil,
        payload: Term::from_text(payload),
    }
}

fn route(
    mgr: &mut ConnectionManager<Recorder>,
    node_id: u64,
    frame: &Frame,
) -> Result<(), ConnectionError> {
    let conn = mgr.route(node_id)?;
    conn.sent.borrow_mut().push(frame.encode());
    Ok(())
}

fn discover(
    mgr: &mut ConnectionManager<Recorder>,
    connector: &mut Connector,
    node_id: u64,
    addr: SocketAddr,
) {
    if let Some(addr) = mgr.on_node_discovered(node_id, addr) {
        let outcome = connector.connect();
        mgr.connect(node_id, addr, outcome).unwrap();
    }
}

#[test]
fn connect_to_new_node() {
    let mut mock = Connector::new();
    let mut mgr = ConnectionManager::new();
    mgr.connect(1, test_addr(4001), mock.connect()).unwrap();

    assert!(mgr.is_connected(1));
    assert_eq!(mgr.connection_count(), 1);
    assert_eq!(mock.count, 1);
}

#[test]
fn route_frame_to_connected_node() {
    let mut mock = Connector::new();
    let mut mgr = ConnectionManager::new();
    mgr.connect(1, test_addr(4001), mock.connect()).unwrap();
    route(&mut mgr, 1, &heartbeat_frame()).unwrap();

    let sent = mock.sent();
    assert_eq!(sent.len(), 1);
    let decoded = Frame::decode(&sent[0]).unwrap();
    assert_eq!(decoded.msg_type, MsgType::Heartbeat);
}

#[test]
fn route_to_unknown_node_returns_error() {
    let mut mgr: ConnectionManager<Recorder> = ConnectionManager::new();
    let result = route(&mut mgr, 999, &heartbeat_frame());
    assert!(result.is_err());
    let error = result.unwrap_err();
    assert_eq!(error.to_string(), "unknown node: 999");
    match error {
        ConnectionError::UnknownNode(id) => assert_eq!(id, 999),
        other => panic!("expected UnknownNode, got: {:?}", other),
    }
}

#[test]
fn disconnect_node() {
    let mut mock = Connector::new();
    let mut mgr = ConnectionManager::new();
    mgr.connect(1, test_addr(4001), mock.connect()).unwrap();
    assert!(mgr.is_connected(1));

    assert!(mgr.disconnect(1).is_some());
    assert!(!mgr.is_connected(1));
    assert_eq!(mgr.connection_count(), 0);
    assert!(mgr.disconnect(1).is_none());
}

#[test]
fn reconnect_after_disconnect() {
    let mut mock = Connector::new();
    let mut mgr = ConnectionManager::new();
    mgr.connect(1, test_addr(4001), mock.connect()).unwrap();
    mgr.disconnect(1);
    assert!(!mgr.is_connected(1));

    mgr.connect(1, test_addr(4001), mock.connect()).unwrap();
    assert!(mgr.is_connected(1));
    assert_eq!(mock.count, 2);
}

#[test]
fn on_node_discovered_connects() {
    let mut mock = Connector::new();
    let mut mgr = ConnectionManager::new();
    discover(&mut mgr, &mut mock, 1, test_addr(4001));

    assert!(mgr.is_connected(1));
    assert_eq!(mock.count, 1);
}

#[test]
fn on_node_discovered_idempotent() {
    let mut mock = Connector::new();
    let mut mgr = ConnectionManager::new();
    discover(&mut mgr, &mut mock, 1, test_addr(4001));
    discover(&mut mgr, &mut mock, 1, test_addr(4001));
    discover(&mut mgr, &mut mock, 1, test_addr(4001));

    assert_eq!(mgr.connection_count(), 1);
    assert_eq!(mock.count, 1);
}

#[test]
fn on_connection_lost_fires_node_down() {
    let mut mock = Connector::new();
    let mut mgr = ConnectionManager::new();
    mgr.connect(1, test_addr(4001), mock.connect()).unwrap();
    let events = mgr.on_connection_lost(1);

    assert!(!mgr.is_connected(1));
    assert!(events.contains(&ConnectionEvent::NodeDown(1)));
}

#[test]
fn on_connection_lost_triggers_reconnect() {
    let mut mock = Connector::new();
    let mut mgr = ConnectionManager::new();
    mgr.connect(1, test_addr(4001), mock.connect()).unwrap();
    let events = mgr.on_connection_lost(1);

    assert!(events.contains(&ConnectionEvent::ReconnectTriggered(1)));
    assert_eq!(mgr.reconnect_attempt_count(1), 1);
}

#[test]
fn a_lost_node_without_an_address_is_only_down() {
    let mut mgr: ConnectionManager<Recorder> = ConnectionManager::new();
    assert_eq!(mgr.on_connection_lost(7), vec![ConnectionEvent::NodeDown(7)]);
    assert_eq!(mgr.reconnect_attempt_count(7), 0);
    assert!(mgr.drain_events().is_empty());
}

#[test]
fn exponential_backoff_timing() {
    let policy = ReconnectPolicy {
        base_delay: Duration::from_secs(1),
        max_delay: Duration::from_secs(30),
    };

    assert_eq!(policy.backoff_delay(0), Duration::from_secs(1));
    assert_eq!(policy.backoff_delay(1), Duration::from_secs(2));
    assert_eq!(policy.backoff_delay(2), Duration::from_secs(4));
    assert_eq!(policy.backoff_delay(3), Duration::from_secs(8));
    assert_eq!(policy.backoff_delay(4), Duration::from_secs(16));
}

#[test]
fn max_backoff_capped() {
    let policy = ReconnectPolicy {
        base_delay: Duration::from_secs(1),
        max_delay: Duration::from_secs(30),
    };

    assert_eq!(policy.backoff_delay(5), Duration::from_secs(30));
    assert_eq!(policy.backoff_delay(10), Duration::from_secs(30));
    assert_eq!(policy.backoff_delay(100), Duration::from_secs(30));
    for attempt in 5..200 {
        assert_eq!(policy.backoff_delay(attempt), Duration::from_secs(30));
    }
}

#[test]
fn default_policy_waits_from_one_to_thirty_seconds() {
    let mgr: ConnectionManager<Recorder> = ConnectionManager::new();
    assert_eq!(mgr.reconnect_policy().base_delay, Duration::from_secs(1));
    assert_eq!(mgr.reconnect_policy().max_delay, Duration::from_secs(30));
}

#[test]
fn reconnect_succeeds_restores_routing() {
    let mut mock = Connector::new();
    let mut mgr = ConnectionManager::new();
    mgr.connect(1, test_addr(4001), mock.connect()).unwrap();
    mgr.on_connection_lost(1);
    assert!(!mgr.is_connected(1));

    let (addr, delay) = mgr.reconnect_target(1).unwrap();
    assert_eq!(addr, test_addr(4001));
    assert_eq!(delay, Duration::from_secs(2));
    let result = mgr.attempt_reconnect(1, mock.connect());
    assert_eq!(result.unwrap(), Duration::zero());
    assert!(mgr.is_connected(1));
    assert_eq!(mgr.reconnect_attempt_count(1), 0);

    route(&mut mgr, 1, &send_frame("hello")).unwrap();
    assert_eq!(mock.sent().len(), 1);
}

#[test]
fn a_refused_reconnect_is_counted() {
    let mut mock = Connector::new();
    let mut mgr = ConnectionManager::new();
    mgr.connect(1, test_addr(4001), mock.connect()).unwrap();
    mgr.on_connection_lost(1);
    let error = mgr.attempt_reconnect(1, mock.refuse()).unwrap_err();
    assert_eq!(error.to_string(), "transport error: io error: mock connection refused");
    assert_eq!(mgr.reconnect_attempt_count(1), 2);
    let error = mgr.attempt_reconnect(2, mock.connect()).unwrap_err();
    assert_eq!(error.to_string(), "unknown node: 2");
    assert!(mgr.reconnect_target(2).is_err());
}

#[test]
fn full_mesh_three_nodes() {
    let mut mock = Connector::new();
    let mut mgr = ConnectionManager::new();
    mgr.connect(1, test_addr(4001), mock.connect()).unwrap();
    mgr.connect(2, test_addr(4002), mock.connect()).unwrap();
    mgr.connect(3, test_addr(4003), mock.connect()).unwrap();

    assert_eq!(mgr.connection_count(), 3);
    assert!(mgr.is_connected(1));
    assert!(mgr.is_connected(2));
    assert!(mgr.is_connected(3));
    assert_eq!(mock.count, 3);

    route(&mut mgr, 1, &heartbeat_frame()).unwrap();
    route(&mut mgr, 2, &heartbeat_frame()).unwrap();
    route(&mut mgr, 3, &heartbeat_frame()).unwrap();

    assert_eq!(mock.sent().len(), 3);
}

#[test]
fn concurrent_route_to_multiple_nodes() {
    let mut mock = Connector::new();
    let mut mgr = ConnectionManager::new();
    mgr.connect(1, test_addr(4001), mock.connect()).unwrap();
    mgr.connect(2, test_addr(4002), mock.connect()).unwrap();

    route(&mut mgr, 1, &send_frame("msg_to_1")).unwrap();
    route(&mut mgr, 2, &send_frame("msg_to_2")).unwrap();
    route(&mut mgr, 1, &send_frame("another_to_1")).unwrap();

    let sent = mock.sent();
    assert_eq!(sent.len(), 3);

    let payloads: Vec<String> = sent
        .iter()
        .map(|data| {
            let frame = Frame::decode(data).unwrap();
            frame.payload.as_str().unwrap().to_string()
        })
        .collect();
    assert!(payloads.contains(&"msg_to_1".to_string()));
    assert!(payloads.contains(&"msg_to_2".to_string()));
    assert!(payloads.contains(&"another_to_1".to_string()));
}

#[test]
fn connection_count() {
    let mut mock = Connector::new();
    let mut mgr = ConnectionManager::new();
    assert_eq!(mgr.connection_count(), 0);

    mgr.connect(1, test_addr(4001), mock.connect()).unwrap();
    assert_eq!(mgr.connection_count(), 1);

    mgr.connect(2, test_addr(4002), mock.connect()).unwrap();
    assert_eq!(mgr.connection_count(), 2);

    mgr.connect(3, test_addr(4003), mock.connect()).unwrap();
    assert_eq!(mgr.connection_count(), 3);

    mgr.disconnect(2);
    assert_eq!(mgr.connection_count(), 2);

    mgr.disconnect(1);
    mgr.disconnect(3);
    assert_eq!(mgr.connection_count(), 0);
}

#[test]
fn drain_connections_closes_all() {
    let mut mock = Connector::new();
    let mut mgr = ConnectionManager::new();
    mgr.connect(1, test_addr(4001), mock.connect()).unwrap();
    mgr.connect(2, test_addr(4002), mock.connect()).unwrap();
    mgr.connect(3, test_addr(4003), mock.connect()).unwrap();

    let closed = mgr.drain_connections();
    assert_eq!(closed.len(), 3);
    assert_eq!(mgr.connection_count(), 0);
    assert!(!mgr.is_connected(1));
    assert!(!mgr.is_connected(2));
    assert!(!mgr.is_connected(3));
}

#[test]
fn error_messages_name_the_node() {
    assert_eq!(
        ConnectionError::AlreadyConnected(12).to_string(),
        "already connected to node: 12"
    );
    assert_eq!(
        ConnectionError::Transport(TransportError::ConnectionClosed).to_string(),
        "transport error: connection closed"
    );
}

#[test]
fn a_frame_travels_behind_its_length() {
    let bytes = send_frame("over the wire").encode();
    let prefix = length_prefix(&bytes);
    assert_eq!(prefix, (bytes.len() as u32).to_be_bytes().to_vec());
    let n = frame_length(LengthRead::Full(prefix)).unwrap();
    assert_eq!(n as usize, bytes.len());
    let frame = received_frame(&bytes).unwrap();
    assert_eq!(frame.payload.as_str(), Some("over the wire"));
    assert!(received_frame(&bytes[..10]).is_err());
}

#[test]
fn a_stream_that_ends_is_closed() {
    let eof = IoError { kind: IoErrorKind::UnexpectedEof, message: "early".to_string() };
    let error = frame_length(LengthRead::Failed(eof)).unwrap_err();
    assert_eq!(error.to_string(), "connection closed");
    let other = IoError { kind: IoErrorKind::Other, message: "reset".to_string() };
    let error = frame_length(LengthRead::Failed(other)).unwrap_err();
    assert_eq!(error.to_string(), "io error: reset");
}

#[test]
fn recv_after_close_returns_error() {
    let mut connection = TcpConnection::new(5u8);
    assert_eq!(*connection.stream().unwrap(), 5);
    connection.close().unwrap();
    assert!(matches!(connection.stream(), Err(TransportError::ConnectionClosed)));
}
