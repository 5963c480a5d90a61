//! The connections of a node to others: which there are, and when to try again.
use crate::assoc::{entry_in_map, Assoc, AssocKey};
use crate::cluster::addr::SocketAddr;
use crate::cluster::transport::traits::{transport_error_text, TransportError};
use crate::text::{decimal, push_decimal};
use crate::time::{Duration, MAX_NANOS};
use vstd::arithmetic::power2::{lemma_pow2_strictly_increases, lemma_pow2_unfold, pow2};
use vstd::prelude::*;
use vstd::string::*;

verus! {

/// Why a connection was not made or used.
#[derive(Debug)]
pub enum ConnectionError {
    Transport(TransportError),
    UnknownNode(u64),
    AlreadyConnected(u64),
}

/// The message of a connection error.
pub open spec fn connection_error_text(e: ConnectionError) -> Seq<char> {
    match e {
        ConnectionError::Transport(t) => "transport error: "@ + transport_error_text(t),
        ConnectionError::UnknownNode(n) => "unknown node: "@ + decimal(n as nat),
        ConnectionError::AlreadyConnected(n) => "already connected to node: "@ + decimal(n as nat),
    }
}

impl ConnectionError {
    /// The message of the error.
    pub fn to_string(&self) -> (r: String)
        ensures
            r@ == connection_error_text(*self),
    {
        let mut s = String::new();
        match self {
            ConnectionError::Transport(t) => {
                s.append("transport error: ");
                s.append(t.to_string().as_str());
            },
            ConnectionError::UnknownNode(n) => {
                s.append("unknown node: ");
                push_decimal(&mut s, *n);
            },
            ConnectionError::AlreadyConnected(n) => {
                s.append("already connected to node: ");
                push_decimal(&mut s, *n);
            },
        }
        assert(s@ =~= connection_error_text(*self));
        s
    }
}

/// What a lost connection leads to.
#[derive(Debug, Clone, Copy, PartialEq, Eq, Structural)]
pub enum ConnectionEvent {
    NodeDown(u64),
    ReconnectTriggered(u64),
}

/// How long to wait before trying again: the base delay, doubled with each attempt, up to the
/// largest.
#[derive(Debug, Clone, Copy, PartialEq, Eq, Structural)]
pub struct ReconnectPolicy {
    pub base_delay: Duration,
    pub max_delay: Duration,
}

/// The delay before an attempt, the first being number zero: the smaller of the base delay times
/// two to the attempt, and the largest delay.
pub open spec fn backoff(base: nat, max: nat, attempt: nat) -> nat {
    if base * pow2(attempt) <= max {
        base * pow2(attempt)
    } else {
        max
    }
}

impl Default for ReconnectPolicy {
    fn default() -> (r: Self)
        ensures
            r.base_delay@ == 1_000_000_000,
            r.max_delay@ == 30_000_000_000,
    {
        Self { base_delay: Duration::from_secs(1), max_delay: Duration::from_secs(30) }
    }
}

impl ReconnectPolicy {
    /// The delay before an attempt, the first being number zero.
    pub fn backoff_delay(&self, attempt: u32) -> (r: Duration)
        ensures
            r@ == backoff(self.base_delay@, self.max_delay@, attempt as nat),
    {
        let base: u128 = self.base_delay.as_nanos();
        let max: u128 = self.max_delay.as_nanos();
        let mut delay: u128 = base;
        let mut i: u32 = 0;
        proof {
            vstd::arithmetic::power2::lemma2_to64();
            assert(base * pow2(0) == base) by (nonlinear_arith)
                requires
                    pow2(0) == 1,
            ;
        }
        while i < attempt && delay <= max
            invariant
                i <= attempt,
                max <= MAX_NANOS,
                base == self.base_delay@,
                max == self.max_delay@,
                delay <= 2 * MAX_NANOS,
                base <= MAX_NANOS,
                delay == base * pow2(i as nat),
            decreases attempt - i,
        {
            proof {
                lemma_pow2_unfold((i + 1) as nat);
                assert(base * (2 * pow2(i as nat)) == 2 * (base * pow2(i as nat)))
                    by (nonlinear_arith);
            }
            delay = delay * 2;
            i = i + 1;
        }
        proof {
            if i < attempt {
                lemma_pow2_strictly_increases(i as nat, attempt as nat);
                assert(base * pow2(attempt as nat) >= base * pow2(i as nat)) by (nonlinear_arith)
                    requires
                        pow2(attempt as nat) > pow2(i as nat),
                        base >= 0,
                ;
            }
        }
        if delay > max {
            self.max_delay
        } else {
            Duration::from_nanos_saturating(delay)
        }
    }
}

/// The delay never shrinks from one attempt to a later one, and never passes the largest.
pub proof fn backoff_grows_up_to_its_limit(base: nat, max: nat, a: nat, b: nat)
    requires
        a <= b,
    ensures
        backoff(base, max, a) <= backoff(base, max, b),
        backoff(base, max, b) <= max,
{
    if a < b {
        lemma_pow2_strictly_increases(a, b);
        assert(base * pow2(a) <= base * pow2(b)) by (nonlinear_arith)
            requires
                pow2(a) < pow2(b),
        ;
    }
}

/// The delay doubles with each attempt, until it reaches the largest.
pub proof fn backoff_doubles(base: nat, max: nat, a: nat)
    ensures
        backoff(base, max, 0) == (if base <= max {
            base
        } else {
            max
        }),
        backoff(base, max, a + 1) == (if 2 * backoff(base, max, a) <= max {
            2 * backoff(base, max, a)
        } else {
            max
        }),
{
    vstd::arithmetic::power2::lemma2_to64();
    lemma_pow2_unfold(a + 1);
    assert(base * pow2(0) == base) by (nonlinear_arith)
        requires
            pow2(0) == 1,
    ;
    assert(base * (2 * pow2(a)) == 2 * (base * pow2(a))) by (nonlinear_arith);
}

/// The connections of a node: by node the connection, if there is one, the address, if it is
/// known, and how often in a row it was lost or not made.
pub struct ConnectionManager<C> {
    connections: Assoc<u64, C>,
    addresses: Assoc<u64, SocketAddr>,
    reconnect_policy: ReconnectPolicy,
    events: Vec<ConnectionEvent>,
    reconnect_attempts: Assoc<u64, u32>,
}

/// Whether the connections are those of the nodes in their order, and the nodes are all those of
/// the map, each once.
pub open spec fn each_once<C>(nodes: Seq<u64>, connected: Map<u64, C>, list: Seq<C>) -> bool {
    &&& nodes.no_duplicates()
    &&& nodes.len() == list.len()
    &&& forall|n: u64| #[trigger] connected.dom().contains(n) ==> nodes.contains(n)
    &&& forall|j: int|
        0 <= j < nodes.len() ==> connected.dom().contains(#[trigger] nodes[j]) && list[j]
            == connected[nodes[j]]
}

impl<C> ConnectionManager<C> {
    /// The connections that there are.
    pub closed spec fn connected(self) -> Map<u64, C> {
        self.connections@
    }

    /// The addresses that are known.
    pub closed spec fn known(self) -> Map<u64, SocketAddr> {
        self.addresses@
    }

    pub closed spec fn attempts(self) -> Map<u64, u32> {
        self.reconnect_attempts@
    }

    pub closed spec fn policy(self) -> ReconnectPolicy {
        self.reconnect_policy
    }

    /// The events that wait to be taken.
    pub closed spec fn pending(self) -> Seq<ConnectionEvent> {
        self.events@
    }

    /// Validity: no node is listed twice.
    pub closed spec fn wf(self) -> bool {
        self.connections.wf() && self.addresses.wf() && self.reconnect_attempts.wf()
    }

    /// How often in a row the connection to a node was lost or not made.
    pub open spec fn attempt(self, node_id: u64) -> u32 {
        if self.attempts().dom().contains(node_id) {
            self.attempts()[node_id]
        } else {
            0
        }
    }

    /// The manager without connections, with the default delays.
    pub fn new() -> (r: Self)
        ensures
            r.wf(),
            r.connected() == Map::<u64, C>::empty(),
            r.known() == Map::<u64, SocketAddr>::empty(),
            r.attempts() == Map::<u64, u32>::empty(),
            r.pending() == Seq::<ConnectionEvent>::empty(),
            r.policy().base_delay@ == 1_000_000_000,
            r.policy().max_delay@ == 30_000_000_000,
    {
        Self::with_reconnect_policy(ReconnectPolicy::default())
    }

    /// The manager without connections, with the given delays.
    pub fn with_reconnect_policy(policy: ReconnectPolicy) -> (r: Self)
        ensures
            r.wf(),
            r.connected() == Map::<u64, C>::empty(),
            r.known() == Map::<u64, SocketAddr>::empty(),
            r.attempts() == Map::<u64, u32>::empty(),
            r.pending() == Seq::<ConnectionEvent>::empty(),
            r.policy() == policy,
    {
        Self {
            connections: Assoc::new(),
            addresses: Assoc::new(),
            reconnect_policy: policy,
            events: Vec::new(),
            reconnect_attempts: Assoc::new(),
        }
    }

    /// Takes the outcome of connecting to a node: a connection is kept, with the address, and the
    /// count of attempts starts over; a failure changes nothing.
    pub fn connect(
        &mut self,
        node_id: u64,
        addr: SocketAddr,
        outcome: Result<C, TransportError>,
    ) -> (r: Result<(), ConnectionError>)
        requires
            old(self).wf(),
        ensures
            final(self).wf(),
            final(self).policy() == old(self).policy(),
            final(self).pending() == old(self).pending(),
            match outcome {
                Ok(conn) => {
                    &&& r is Ok
                    &&& final(self).connected() == old(self).connected().insert(node_id, conn)
                    &&& final(self).known() == old(self).known().insert(node_id, addr)
                    &&& final(self).attempts() == old(self).attempts().remove(node_id)
                },
                Err(e) => {
                    &&& r == Err::<(), ConnectionError>(ConnectionError::Transport(e))
                    &&& final(self).connected() == old(self).connected()
                    &&& final(self).known() == old(self).known()
                    &&& final(self).attempts() == old(self).attempts()
                },
            },
            r is Ok <==> outcome is Ok,
            r is Ok ==> final(self).attempt(node_id) == 0 && final(self).known().dom().contains(
                node_id,
            ) && final(self).connected().dom().contains(node_id),
            forall|n: u64|
                n != node_id ==> #[trigger] final(self).attempt(n) == old(self).attempt(n),
    {
        match outcome {
            Ok(conn) => {
                self.connections.insert(node_id, conn);
                self.addresses.insert(node_id, addr);
                self.reconnect_attempts.remove(&node_id);
                Ok(())
            },
            Err(e) => Err(ConnectionError::Transport(e)),
        }
    }

    /// Forgets a node, and gives its connection, if there was one, to be closed.
    pub fn disconnect(&mut self, node_id: u64) -> (r: Option<C>)
        requires
            old(self).wf(),
        ensures
            final(self).wf(),
            final(self).policy() == old(self).policy(),
            final(self).pending() == old(self).pending(),
            final(self).connected() == old(self).connected().remove(node_id),
            final(self).known() == old(self).known().remove(node_id),
            final(self).attempts() == old(self).attempts().remove(node_id),
            r == (if old(self).connected().dom().contains(node_id) {
                Some(old(self).connected()[node_id])
            } else {
                None
            }),
    {
        let conn = self.connections.remove(&node_id);
        self.addresses.remove(&node_id);
        self.reconnect_attempts.remove(&node_id);
        conn
    }

    /// The connection to send a frame for a node through.
    pub fn route(&mut self, node_id: u64) -> (r: Result<&mut C, ConnectionError>)
        requires
            old(self).wf(),
        ensures
            final(self).wf(),
            final(self).policy() == old(self).policy(),
            final(self).pending() == old(self).pending(),
            final(self).known() == old(self).known(),
            final(self).attempts() == old(self).attempts(),
            match r {
                Ok(c) => old(self).connected().dom().contains(node_id) && *c
                    == old(self).connected()[node_id] && final(self).connected()
                    == old(self).connected().insert(
                    node_id,
                    *final(c),
                ),
                Err(e) => !old(self).connected().dom().contains(node_id) && e
                    == ConnectionError::UnknownNode(node_id) && final(self).connected()
                        == old(self).connected(),
            },
    {
        match self.connections.get_mut(&node_id) {
            Some(c) => Ok(c),
            None => Err(ConnectionError::UnknownNode(node_id)),
        }
    }

    /// Whether there is a connection to the node.
    pub fn is_connected(&self, node_id: u64) -> (r: bool)
        requires
            self.wf(),
        ensures
            r == self.connected().dom().contains(node_id),
    {
        self.connections.contains_key(&node_id)
    }

    /// The number of connections.
    pub fn connection_count(&self) -> (r: usize)
        requires
            self.wf(),
        ensures
            r == self.connected().dom().len(),
    {
        self.connections.len()
    }

    /// A node was discovered: gives the address to connect to, unless there is a connection.
    pub fn on_node_discovered(&self, node_id: u64, addr: SocketAddr) -> (r: Option<SocketAddr>)
        requires
            self.wf(),
        ensures
            r == (if self.connected().dom().contains(node_id) {
                None
            } else {
                Some(addr)
            }),
    {
        if self.is_connected(node_id) {
            None
        } else {
            Some(addr)
        }
    }

    /// A connection was lost: the node is down, and if its address is known an attempt to
    /// connect again is due, and counted.
    pub fn on_connection_lost(&mut self, node_id: u64) -> (r: Vec<ConnectionEvent>)
        requires
            old(self).wf(),
            old(self).attempt(node_id) < u32::MAX,
        ensures
            final(self).wf(),
            final(self).policy() == old(self).policy(),
            final(self).pending() == old(self).pending(),
            final(self).known() == old(self).known(),
            final(self).connected() == old(self).connected().remove(node_id),
            if old(self).known().dom().contains(node_id) {
                &&& r@ == seq![
                    ConnectionEvent::NodeDown(node_id),
                    ConnectionEvent::ReconnectTriggered(node_id),
                ]
                &&& final(self).attempts() == old(self).attempts().insert(
                    node_id,
                    (old(self).attempt(node_id) + 1) as u32,
                )
            } else {
                &&& r@ == seq![ConnectionEvent::NodeDown(node_id)]
                &&& final(self).attempts() == old(self).attempts()
            },
            !final(self).connected().dom().contains(node_id),
            r@.len() > 0 && r@[0] == ConnectionEvent::NodeDown(node_id),
            old(self).known().dom().contains(node_id) ==> final(self).attempt(node_id)
                == old(self).attempt(node_id) + 1,
            forall|n: u64|
                n != node_id ==> #[trigger] final(self).attempt(n) == old(self).attempt(n),
    {
        self.connections.remove(&node_id);
        let mut events: Vec<ConnectionEvent> = Vec::new();
        events.push(ConnectionEvent::NodeDown(node_id));
        if self.addresses.contains_key(&node_id) {
            events.push(ConnectionEvent::ReconnectTriggered(node_id));
            self.count_attempt(node_id);
        }
        events
    }

    /// Counts an attempt.
    fn count_attempt(&mut self, node_id: u64)
        requires
            old(self).wf(),
            old(self).attempt(node_id) < u32::MAX,
        ensures
            final(self).wf(),
            final(self).policy() == old(self).policy(),
            final(self).pending() == old(self).pending(),
            final(self).known() == old(self).known(),
            final(self).connected() == old(self).connected(),
            final(self).attempts() == old(self).attempts().insert(
                node_id,
                (old(self).attempt(node_id) + 1) as u32,
            ),
    {
        let n: u32 = self.reconnect_attempt_count(node_id);
        self.reconnect_attempts.insert(node_id, n + 1);
    }

    /// The address to connect to again, and how long to wait before the next attempt if this one
    /// fails.
    pub fn reconnect_target(&self, node_id: u64) -> (r: Result<
        (SocketAddr, Duration),
        ConnectionError,
    >)
        requires
            self.wf(),
        ensures
            match r {
                Ok((addr, delay)) => {
                    &&& self.known().dom().contains(node_id)
                    &&& addr == self.known()[node_id]
                    &&& delay@ == backoff(
                        self.policy().base_delay@,
                        self.policy().max_delay@,
                        self.attempt(node_id) as nat,
                    )
                    &&& delay@ <= self.policy().max_delay@
                },
                Err(e) => !self.known().dom().contains(node_id) && e
                    == ConnectionError::UnknownNode(node_id),
            },
    {
        match self.addresses.get(&node_id) {
            Some(addr) => {
                let n: u32 = self.reconnect_attempt_count(node_id);
                Ok((*addr, self.reconnect_policy.backoff_delay(n)))
            },
            None => Err(ConnectionError::UnknownNode(node_id)),
        }
    }

    /// Takes the outcome of connecting to a node again: a connection is kept, and the count of
    /// attempts starts over; a failure is counted.
    pub fn attempt_reconnect(&mut self, node_id: u64, outcome: Result<C, TransportError>) -> (r:
        Result<Duration, ConnectionError>)
        requires
            old(self).wf(),
            old(self).attempt(node_id) < u32::MAX,
        ensures
            final(self).wf(),
            final(self).policy() == old(self).policy(),
            final(self).pending() == old(self).pending(),
            final(self).known() == old(self).known(),
            if !old(self).known().dom().contains(node_id) {
                &&& r == Err::<Duration, ConnectionError>(ConnectionError::UnknownNode(node_id))
                &&& final(self).connected() == old(self).connected()
                &&& final(self).attempts() == old(self).attempts()
            } else {
                match outcome {
                    Ok(conn) => {
                        &&& r is Ok
                        &&& r->Ok_0@ == 0
                        &&& final(self).connected() == old(self).connected().insert(node_id, conn)
                        &&& final(self).attempts() == old(self).attempts().remove(node_id)
                    },
                    Err(e) => {
                        &&& r == Err::<Duration, ConnectionError>(ConnectionError::Transport(e))
                        &&& final(self).connected() == old(self).connected()
                        &&& final(self).attempts() == old(self).attempts().insert(
                            node_id,
                            (old(self).attempt(node_id) + 1) as u32,
                        )
                    },
                }
            },
    {
        if !self.addresses.contains_key(&node_id) {
            return Err(ConnectionError::UnknownNode(node_id));
        }
        match outcome {
            Ok(conn) => {
                self.connections.insert(node_id, conn);
                self.reconnect_attempts.remove(&node_id);
                Ok(Duration::zero())
            },
            Err(e) => {
                self.count_attempt(node_id);
                Err(ConnectionError::Transport(e))
            },
        }
    }

    /// How often in a row the connection to a node was lost or not made.
    pub fn reconnect_attempt_count(&self, node_id: u64) -> (r: u32)
        requires
            self.wf(),
        ensures
            r == self.attempt(node_id),
            !self.attempts().dom().contains(node_id) ==> r == 0,
            self.attempts().dom().contains(node_id) ==> r == self.attempts()[node_id],
    {
        match self.reconnect_attempts.get(&node_id) {
            Some(n) => *n,
            None => 0,
        }
    }

    /// Takes the events that wait.
    pub fn drain_events(&mut self) -> (r: Vec<ConnectionEvent>)
        requires
            old(self).wf(),
        ensures
            final(self).wf(),
            r@ == old(self).pending(),
            final(self).pending() == Seq::<ConnectionEvent>::empty(),
            final(self).policy() == old(self).policy(),
            final(self).connected() == old(self).connected(),
            final(self).known() == old(self).known(),
            final(self).attempts() == old(self).attempts(),
    {
        let mut out: Vec<ConnectionEvent> = Vec::new();
        std::mem::swap(&mut out, &mut self.events);
        out
    }

    /// How long to wait before trying again.
    pub fn reconnect_policy(&self) -> (r: &ReconnectPolicy)
        ensures
            *r == self.policy(),
    {
        &self.reconnect_policy
    }

    /// Forgets all nodes, and gives their connections, to be closed.
    pub fn drain_connections(&mut self) -> (r: Vec<C>)
        requires
            old(self).wf(),
        ensures
            final(self).wf(),
            final(self).policy() == old(self).policy(),
            final(self).pending() == old(self).pending(),
            final(self).connected() == Map::<u64, C>::empty(),
            final(self).known() == Map::<u64, SocketAddr>::empty(),
            final(self).attempts() == Map::<u64, u32>::empty(),
            r@.len() == old(self).connected().dom().len(),
            exists|nodes: Seq<u64>| #[trigger] each_once(nodes, old(self).connected(), r@),
    {
        let n: usize = self.connections.len();
        let ghost before = self.connections@;
        let ghost items = self.connections.items();
        let mut out: Vec<C> = Vec::new();
        let mut i: usize = 0;
        assert(items.skip(0) =~= items);
        while i < n
            invariant
                self.connections.wf(),
                self.addresses == old(self).addresses,
                self.reconnect_attempts == old(self).reconnect_attempts,
                self.reconnect_policy == old(self).reconnect_policy,
                self.events == old(self).events,
                n == items.len(),
                i <= n,
                self.connections.items() == items.skip(i as int),
                out@.len() == i,
                forall|j: int| 0 <= j < i ==> #[trigger] out@[j] == items[j].1,
            decreases n - i,
        {
            let (_, c) = self.connections.remove_at(0);
            assert(items.skip(i as int).remove(0) =~= items.skip(i + 1));
            out.push(c);
            i = i + 1;
        }
        self.addresses = Assoc::new();
        self.reconnect_attempts = Assoc::new();
        proof {
            assert(self.connections.items() =~= Seq::empty());
            assert(self.connected() =~= Map::<u64, C>::empty());
            let nodes = items.map_values(|e: (u64, C)| e.0);
            assert forall|j: int| 0 <= j < nodes.len() implies before.dom().contains(
                #[trigger] nodes[j],
            ) && out@[j] == before[nodes[j]] by {
                entry_in_map(items, j);
            }
            assert forall|x: u64| #[trigger] before.dom().contains(x) implies nodes.contains(x) by {
                let j = choose|j: int| 0 <= j < items.len() && (#[trigger] items[j]).0.key() == x;
                assert(nodes[j] == x);
            }
            assert(nodes.no_duplicates());
            assert(each_once(nodes, before, out@));
        }
        out
    }
}

} // verus!
