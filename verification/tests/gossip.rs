//! The queue of news.
use rebar::cluster::addr::SocketAddr;
use rebar::cluster::swim::gossip::{GossipQueue, GossipUpdate};

fn test_addr(port: u16) -> SocketAddr {
    SocketAddr::v4(127, 0, 0, 1, port)
}

#[test]
fn add_update_to_queue() {
    let mut q = GossipQueue::new();
    q.add(GossipUpdate::Alive {
        node_id: 1,
        addr: test_addr(4000),
        incarnation: 0,
        cert_hash: None,
    });
    let items = q.drain(10);
    assert_eq!(items.len(), 1);
    assert_eq!(
        items[0],
        GossipUpdate::Alive {
            node_id: 1,
            addr: test_addr(4000),
            incarnation: 0,
            cert_hash: None,
        }
    );
}

#[test]
fn drain_returns_bounded_count() {
    let mut q = GossipQueue::new();
    for i in 0..5 {
        q.add(GossipUpdate::Alive {
            node_id: i,
            addr: test_addr(4000 + i as u16),
            incarnation: 0,
            cert_hash: None,
        });
    }
    let items = q.drain(3);
    assert_eq!(items.len(), 3);
    // Remaining items should still be in the queue
    let rest = q.drain(10);
    assert_eq!(rest.len(), 2);
}

#[test]
fn drain_more_than_available_returns_all() {
    let mut q = GossipQueue::new();
    q.add(GossipUpdate::Alive {
        node_id: 1,
        addr: test_addr(4000),
        incarnation: 0,
        cert_hash: None,
    });
    q.add(GossipUpdate::Dead {
        node_id: 2,
        addr: test_addr(4001),
    });
    let items = q.drain(100);
    assert_eq!(items.len(), 2);
}

#[test]
fn drain_empty_queue() {
    let mut q = GossipQueue::new();
    let items = q.drain(10);
    assert!(items.is_empty());
}





#[test]
fn gossip_queue_fifo_order() {
    let mut q = GossipQueue::new();
    q.add(GossipUpdate::Alive {
        node_id: 1,
        addr: test_addr(4001),
        incarnation: 0,
        cert_hash: None,
    });
    q.add(GossipUpdate::Suspect {
        node_id: 2,
        addr: test_addr(4002),
        incarnation: 1,
    });
    q.add(GossipUpdate::Dead {
        node_id: 3,
        addr: test_addr(4003),
    });
    let items = q.drain(3);
    assert_eq!(
        items[0],
        GossipUpdate::Alive {
            node_id: 1,
            addr: test_addr(4001),
            incarnation: 0,
            cert_hash: None,
        }
    );
    assert_eq!(
        items[1],
        GossipUpdate::Suspect {
            node_id: 2,
            addr: test_addr(4002),
            incarnation: 1,
        }
    );
    assert_eq!(
        items[2],
        GossipUpdate::Dead {
            node_id: 3,
            addr: test_addr(4003),
        }
    );
}


