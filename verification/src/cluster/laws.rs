//! What registries, connections, frames and leaving promise from one call to the next.
use crate::bytes::{be_bytes, be_bytes_len, be_round_trip, be_value, byte_range_values};
use crate::cluster::addr::SocketAddr;
use crate::cluster::connection::{
    backoff_doubles, backoff_grows_up_to_its_limit, each_once, ConnectionError, ConnectionEvent,
    ConnectionManager, ReconnectPolicy,
};
use crate::cluster::drain::{outbound_step, DrainConfig, DrainEvent, DrainStep, NodeDrain};
use crate::cluster::protocol::{
    bytes_behind_a_frame_are_ignored, complete_frame, frame_error_text, frame_parts, join_frame,
    msg_type_codes_are_distinct, split_frame, Frame, FrameError, FrameLayout, MsgType,
};
use crate::cluster::registry::{
    delta_views, is_winner, listing_agrees_with_lookup, lists, lists_all, what_is_dropped_is_gone,
    wins, without, DeltaView, EntryView, Registry, RegistryDelta, RegistryEntry,
};
use crate::cluster::router::{
    address_of, address_round_trip, deliver_inbound_frame, encode_send_frame, frames_deliver,
    inbound_address, remote_command, remote_result, DistributedRouter, RouterCommand,
};
use crate::cluster::swim::gossip::{GossipQueue, GossipUpdate};
use crate::cluster::transport::quic::{
    cert_fingerprint, generate_self_signed_cert, split_bytes, CertHash, QuicConnection,
    QuicListener, QuicTransport,
};
use crate::cluster::transport::tcp::{
    frame_length, length_prefix, received_frame, LengthRead, TcpConnection,
};
use crate::cluster::transport::traits::{transport_error_text, TransportError};
use crate::io::{IoError, IoErrorKind};
use crate::process::table::ProcessTable;
use crate::process::types::send_error_text;
use crate::process::{ProcessId, SendError};
use crate::router::{delivered, MessageRouter};
use crate::term::Term;
use crate::text::decimal;
use crate::time::Duration;
use vstd::prelude::*;

verus! {

/// The latest registration counts: where none of the name is as late, a look-up gives the one that
/// was just made.
pub proof fn latest_registration_is_found(
    before: Registry,
    name: &str,
    pid: ProcessId,
    node_id: u64,
    timestamp: u64,
    tag: u128,
    after: Registry,
    found: Option<&RegistryEntry>,
)
    requires
        exists|m: &mut Registry|
            *m == before && *final(m) == after && #[trigger] call_ensures(
                Registry::register_tagged,
                (m, name, pid, node_id, timestamp, tag),
                (),
            ),
        forall|j: int|
            0 <= j < before@.entries.len() && (#[trigger] before@.entries[j]).name == name@
                ==> before@.entries[j].timestamp < timestamp,
        call_ensures(Registry::lookup, (&after, name), found),
    ensures
        found is Some,
        found->0.pid == pid,
        found->0.node_id == node_id,
        found->0.timestamp == timestamp,
        found->0.tag == tag,
{
    let n = before@.entries.len() as int;
    assert(after@.entries[n].name == name@);
    if found is Some {
        let i = choose|i: int| 0 <= i < after@.entries.len() && after@.entries[i] == found->0@;
        if i < n {
            assert(after@.entries[i] == before@.entries[i]);
        }
    }
}

/// A registration with an earlier time does not take a name over: a look-up gives what it gave
/// before.
pub proof fn earlier_registration_is_passed_over(
    before: Registry,
    name: &str,
    pid: ProcessId,
    node_id: u64,
    timestamp: u64,
    tag: u128,
    after: Registry,
    was: Option<&RegistryEntry>,
    found: Option<&RegistryEntry>,
)
    requires
        exists|m: &mut Registry|
            *m == before && *final(m) == after && #[trigger] call_ensures(
                Registry::register_tagged,
                (m, name, pid, node_id, timestamp, tag),
                (),
            ),
        call_ensures(Registry::lookup, (&before, name), was),
        was is Some,
        timestamp < was->0.timestamp,
        call_ensures(Registry::lookup, (&after, name), found),
    ensures
        found is Some,
        found->0.timestamp == was->0.timestamp,
        found->0.node_id == was->0.node_id,
{
    let n = before@.entries.len() as int;
    let i = choose|i: int| 0 <= i < before@.entries.len() && before@.entries[i] == was->0@;
    assert(after@.entries[i] == before@.entries[i]);
    assert(after@.entries[i].name == name@);
    if found is Some {
        let k = choose|k: int| 0 <= k < after@.entries.len() && after@.entries[k] == found->0@;
        if k < n {
            assert(after@.entries[k] == before@.entries[k]);
        } else {
            assert(after@.entries[k].timestamp == timestamp);
        }
    }
}

/// A name that was unregistered is not found, whatever was registered under it; it gives removals
/// exactly where it was found before.
pub proof fn unregistered_names_are_not_found(
    before: Registry,
    name: &str,
    after: Registry,
    r: Option<Vec<RegistryDelta>>,
    was: Option<&RegistryEntry>,
    found: Option<&RegistryEntry>,
)
    requires
        exists|m: &mut Registry|
            *m == before && *final(m) == after && #[trigger] call_ensures(
                Registry::unregister,
                (m, name),
                r,
            ),
        call_ensures(Registry::lookup, (&before, name), was),
        call_ensures(Registry::lookup, (&after, name), found),
    ensures
        found is None,
        r is Some <==> was is Some,
{
    if found is Some {
        assert(after@.entries.contains(found->0@));
    }
    if was is Some {
        let i = choose|i: int| 0 <= i < before@.entries.len() && before@.entries[i] == was->0@;
        assert(before@.entries[i].name == name@);
    }
}

/// No look-up gives a registration of a process that was removed, and a name that only other
/// processes hold is found as before.
pub proof fn removed_processes_are_not_found(
    before: Registry,
    pid: ProcessId,
    after: Registry,
    name: &str,
    was: Option<&RegistryEntry>,
    found: Option<&RegistryEntry>,
)
    requires
        exists|m: &mut Registry|
            *m == before && *final(m) == after && #[trigger] call_ensures(
                Registry::remove_by_pid,
                (m, pid),
                (),
            ),
        call_ensures(Registry::lookup, (&before, name), was),
        call_ensures(Registry::lookup, (&after, name), found),
    ensures
        found is Some ==> found->0.pid != pid,
        was is Some && was->0.pid != pid ==> found is Some && found->0.timestamp == was->0.timestamp
            && found->0.node_id == was->0.node_id,
{
    if found is Some {
        assert(after@.entries.contains(found->0@));
        assert(before@.entries.contains(found->0@));
        let j = choose|j: int| 0 <= j < before@.entries.len() && before@.entries[j] == found->0@;
        assert(before@.entries[j].name == name@);
    }
    if was is Some && was->0.pid != pid {
        assert(after@.entries.contains(was->0@));
        let j = choose|j: int| 0 <= j < after@.entries.len() && after@.entries[j] == was->0@;
        assert(after@.entries[j].name == name@);
    }
}

/// No look-up gives a registration from a node that was removed, and a name whose registration
/// that counts is from another node is found as before.
pub proof fn removed_nodes_are_not_found(
    before: Registry,
    node_id: u64,
    after: Registry,
    name: &str,
    was: Option<&RegistryEntry>,
    found: Option<&RegistryEntry>,
)
    requires
        exists|m: &mut Registry|
            *m == before && *final(m) == after && #[trigger] call_ensures(
                Registry::remove_by_node,
                (m, node_id),
                (),
            ),
        call_ensures(Registry::lookup, (&before, name), was),
        call_ensures(Registry::lookup, (&after, name), found),
    ensures
        found is Some ==> found->0.node_id != node_id,
        was is Some && was->0.node_id != node_id ==> found is Some && found->0.timestamp
            == was->0.timestamp && found->0.node_id == was->0.node_id,
{
    if found is Some {
        assert(after@.entries.contains(found->0@));
        assert(before@.entries.contains(found->0@));
        let j = choose|j: int| 0 <= j < before@.entries.len() && before@.entries[j] == found->0@;
        assert(before@.entries[j].name == name@);
    }
    if was is Some && was->0.node_id != node_id {
        assert(after@.entries.contains(was->0@));
        let j = choose|j: int| 0 <= j < after@.entries.len() && after@.entries[j] == was->0@;
        assert(after@.entries[j].name == name@);
    }
}

/// The listing has every name that a look-up finds, once, with the process that the look-up gives,
/// and no other.
pub proof fn listing_is_what_lookups_give(
    g: Registry,
    list: Vec<(String, ProcessId)>,
    name: &str,
    found: Option<&RegistryEntry>,
    k: int,
)
    requires
        call_ensures(Registry::registered, (&g,), list),
        call_ensures(Registry::lookup, (&g, name), found),
    ensures
        found is Some ==> exists|i: int|
            0 <= i < list@.len() && (#[trigger] list@[i]).0@ == name@ && list@[i].1 == found->0.pid,
        0 <= k < list@.len() && list@[k].0@ == name@ ==> found is Some && list@[k].1 == found->0.pid,
{
    if found is Some {
        let w = choose|w: int| #[trigger]
            is_winner(g@.entries, name@, w) && found->0@ == g@.entries[w];
        assert(is_winner(g@.entries, name@, w));
        assert(0 <= w < g@.entries.len());
        assert(lists_all(list@, g@.entries));
        assert(lists(list@, g@.entries[w].name));
        let i = choose|i: int| 0 <= i < list@.len() && (#[trigger] list@[i]).0@ == name@;
        assert(wins(g@.entries, list@[i].0@, list@[i].1));
        listing_agrees_with_lookup(g@.entries, name@, list@[i].1, w, w);
    }
    if 0 <= k < list@.len() && list@[k].0@ == name@ {
        assert(wins(g@.entries, list@[k].0@, list@[k].1));
        if found is Some {
            let w = choose|w: int| #[trigger]
                is_winner(g@.entries, name@, w) && found->0@ == g@.entries[w];
            listing_agrees_with_lookup(g@.entries, name@, list@[k].1, w, w);
        } else {
            let w = choose|w: int| #[trigger]
                is_winner(g@.entries, name@, w) && g@.entries[w].pid == list@[k].1;
            assert(g@.entries[w].name == name@);
        }
    }
}

/// A registry that followed a removal holds no registration with its tag, and none comes back with
/// it.
pub proof fn followed_removals_hold(
    before: Registry,
    name: String,
    tag: u128,
    middle: Registry,
    entry: RegistryEntry,
    after: Registry,
    e: EntryView,
)
    requires
        exists|m: &mut Registry|
            *m == before && *final(m) == middle && #[trigger] call_ensures(
                Registry::merge_delta,
                (m, RegistryDelta::Remove { name, tag }),
                (),
            ),
        entry.tag == tag,
        exists|m: &mut Registry|
            *m == middle && *final(m) == after && #[trigger] call_ensures(
                Registry::merge_delta,
                (m, RegistryDelta::Add(entry)),
                (),
            ),
    ensures
        middle@.entries.contains(e) ==> e.tag != tag && before@.entries.contains(e),
        before@.entries.contains(e) && e.tag != tag ==> middle@.entries.contains(e),
        after@ == middle@,
{
    let gone = DeltaView::Remove { name: name@, tag };
    assert(RegistryDelta::Remove { name, tag }@ == gone);
    assert(RegistryDelta::Add(entry)@ == DeltaView::Add(entry@));
    let drop = |x: EntryView| x.tag == tag;
    what_is_dropped_is_gone(before@, drop);
    assert(without(before@, drop).entries =~= middle@.entries) by {
        same_filter(before@.entries, |x: EntryView| !drop(x), |x: EntryView| x.tag != tag);
    }
}

/// A registry that followed an addition holds the registration, unless its tag was removed, beside
/// all that it held.
pub proof fn followed_additions_are_held(
    before: Registry,
    entry: RegistryEntry,
    after: Registry,
    e: EntryView,
)
    requires
        exists|m: &mut Registry|
            *m == before && *final(m) == after && #[trigger] call_ensures(
                Registry::merge_delta,
                (m, RegistryDelta::Add(entry)),
                (),
            ),
    ensures
        before@.entries.contains(e) ==> after@.entries.contains(e),
        !before@.tombstones.contains(entry.tag) ==> exists|j: int|
            0 <= j < after@.entries.len() && (#[trigger] after@.entries[j]).name == entry.name@
                && after@.entries[j].tag == entry.tag,
        before@.tombstones.contains(entry.tag) ==> after@ == before@,
        after@.tombstones == before@.tombstones,
{
    assert(RegistryDelta::Add(entry)@ == DeltaView::Add(entry@));
    if before@.entries.contains(e) {
        let i = choose|i: int| 0 <= i < before@.entries.len() && before@.entries[i] == e;
        assert(after@.entries[i] == e);
    }
    if !before@.tombstones.contains(entry.tag) && after@ != before@ {
        assert(after@.entries[before@.entries.len() as int] == entry@);
    }
}

/// What a registry tells another to follow is all that it holds: each registration, and each
/// removed tag.
pub proof fn all_is_told(
    g: Registry,
    r: Vec<RegistryDelta>,
    e: EntryView,
    tag: u128,
)
    requires
        g@.entries.contains(e),
        g@.tombstones.contains(tag),
        call_ensures(Registry::generate_deltas, (&g,), r),
    ensures
        exists|i: int| 0 <= i < r@.len() && (#[trigger] r@[i])@ == DeltaView::Add(e),
        exists|i: int|
            0 <= i < r@.len() && ((#[trigger] r@[i])@ matches DeltaView::Remove { name, tag: t } && t
                == tag),
{
    let views = delta_views(r@);
    let i = choose|i: int| 0 <= i < g@.entries.len() && g@.entries[i] == e;
    assert(views[i] == DeltaView::Add(g@.entries[i]));
    assert(r@[i]@ == views[i]);
    let k = choose|k: int|
        g@.entries.len() <= k < views.len() && (#[trigger] views[k]).tag() == tag;
    assert(views[k] == (DeltaView::Remove { name: Seq::empty(), tag: views[k].tag() }));
    assert(r@[k]@ == views[k]);
}

proof fn same_filter(
    s: Seq<EntryView>,
    f: spec_fn(EntryView) -> bool,
    g: spec_fn(EntryView) -> bool,
)
    requires
        forall|e: EntryView| #[trigger] f(e) == g(e),
    ensures
        s.filter(f) == s.filter(g),
    decreases s.len(),
{
    reveal(Seq::filter);
    if s.len() > 0 {
        same_filter(s.drop_last(), f, g);
        assert(f(s.last()) == g(s.last()));
    }
}

/// A connection that was made lasts until it is lost, and the count of attempts starts over with
/// it; once it is lost, there is none, the others stay, and where the address is known one more
/// attempt is counted and due.
pub proof fn connections_last_until_lost<C>(
    before: ConnectionManager<C>,
    node_id: u64,
    addr: SocketAddr,
    conn: C,
    made: ConnectionManager<C>,
    r: Result<(), ConnectionError>,
    up: bool,
    tried: u32,
    lost: ConnectionManager<C>,
    events: Vec<ConnectionEvent>,
    down: bool,
    again: u32,
    other: u64,
    was: bool,
    still: bool,
)
    requires
        other != node_id,
        exists|m: &mut ConnectionManager<C>|
            *m == before && *final(m) == made && #[trigger] call_ensures(
                ConnectionManager::<C>::connect,
                (m, node_id, addr, Ok(conn)),
                r,
            ),
        call_ensures(ConnectionManager::<C>::is_connected, (&made, node_id), up),
        call_ensures(ConnectionManager::<C>::reconnect_attempt_count, (&made, node_id), tried),
        exists|m: &mut ConnectionManager<C>|
            *m == made && *final(m) == lost && #[trigger] call_ensures(
                ConnectionManager::<C>::on_connection_lost,
                (m, node_id),
                events,
            ),
        call_ensures(ConnectionManager::<C>::is_connected, (&lost, node_id), down),
        call_ensures(ConnectionManager::<C>::reconnect_attempt_count, (&lost, node_id), again),
        call_ensures(ConnectionManager::<C>::is_connected, (&before, other), was),
        call_ensures(ConnectionManager::<C>::is_connected, (&lost, other), still),
    ensures
        r is Ok,
        up,
        tried == 0,
        !down,
        again == 1,
        events@.contains(ConnectionEvent::NodeDown(node_id)),
        events@.contains(ConnectionEvent::ReconnectTriggered(node_id)),
        still == was,
{
    assert(events@[0] == ConnectionEvent::NodeDown(node_id));
    assert(events@[1] == ConnectionEvent::ReconnectTriggered(node_id));
}

/// A connection that could not be made changes nothing, and the error says why.
pub proof fn failed_connections_change_nothing<C>(
    before: ConnectionManager<C>,
    node_id: u64,
    addr: SocketAddr,
    e: TransportError,
    after: ConnectionManager<C>,
    r: Result<(), ConnectionError>,
    node: u64,
    was: bool,
    linked: bool,
)
    requires
        exists|m: &mut ConnectionManager<C>|
            *m == before && *final(m) == after && #[trigger] call_ensures(
                ConnectionManager::<C>::connect,
                (m, node_id, addr, Err(e)),
                r,
            ),
        call_ensures(ConnectionManager::<C>::is_connected, (&before, node), was),
        call_ensures(ConnectionManager::<C>::is_connected, (&after, node), linked),
    ensures
        r == Err::<(), ConnectionError>(ConnectionError::Transport(e)),
        linked == was,
        after.known() == before.known(),
        after.attempts() == before.attempts(),
{
}

/// Trying again counts: a failure adds one to the attempts and leaves the node unconnected as it
/// was, so that the next delay is not shorter; success connects it and starts the count over.
pub proof fn trying_again_counts<C>(
    before: ConnectionManager<C>,
    node_id: u64,
    outcome: Result<C, TransportError>,
    after: ConnectionManager<C>,
    r: Result<Duration, ConnectionError>,
    tried: u32,
    again: u32,
    linked: bool,
    first: Result<(SocketAddr, Duration), ConnectionError>,
    next: Result<(SocketAddr, Duration), ConnectionError>,
)
    requires
        before.known().dom().contains(node_id),
        before.attempt(node_id) < u32::MAX,
        exists|m: &mut ConnectionManager<C>|
            *m == before && *final(m) == after && #[trigger] call_ensures(
                ConnectionManager::<C>::attempt_reconnect,
                (m, node_id, outcome),
                r,
            ),
        call_ensures(ConnectionManager::<C>::reconnect_attempt_count, (&before, node_id), tried),
        call_ensures(ConnectionManager::<C>::reconnect_attempt_count, (&after, node_id), again),
        call_ensures(ConnectionManager::<C>::is_connected, (&after, node_id), linked),
        call_ensures(ConnectionManager::<C>::reconnect_target, (&before, node_id), first),
        call_ensures(ConnectionManager::<C>::reconnect_target, (&after, node_id), next),
    ensures
        r is Ok <==> outcome is Ok,
        outcome is Ok ==> linked && again == 0,
        outcome is Err ==> again == tried + 1,
        first is Ok,
        next is Ok,
        first->Ok_0.0 == before.known()[node_id],
        outcome is Err ==> first->Ok_0.1@ <= next->Ok_0.1@ <= before.policy().max_delay@,
{
    backoff_grows_up_to_its_limit(
        before.policy().base_delay@,
        before.policy().max_delay@,
        before.attempt(node_id) as nat,
        (before.attempt(node_id) + 1) as nat,
    );
}

/// A node that was forgotten is not connected, is not tried again, and is known no more; its
/// connection is handed out to be closed.
pub proof fn forgotten_nodes_are_unknown<C>(
    before: ConnectionManager<C>,
    node_id: u64,
    after: ConnectionManager<C>,
    r: Option<C>,
    was: bool,
    linked: bool,
    target: Result<(SocketAddr, Duration), ConnectionError>,
    tried: u32,
)
    requires
        exists|m: &mut ConnectionManager<C>|
            *m == before && *final(m) == after && #[trigger] call_ensures(
                ConnectionManager::<C>::disconnect,
                (m, node_id),
                r,
            ),
        call_ensures(ConnectionManager::<C>::is_connected, (&before, node_id), was),
        call_ensures(ConnectionManager::<C>::is_connected, (&after, node_id), linked),
        call_ensures(ConnectionManager::<C>::reconnect_target, (&after, node_id), target),
        call_ensures(ConnectionManager::<C>::reconnect_attempt_count, (&after, node_id), tried),
    ensures
        !linked,
        r is Some <==> was,
        target == Err::<(SocketAddr, Duration), ConnectionError>(
            ConnectionError::UnknownNode(node_id),
        ),
        tried == 0,
{
}

/// A node that was discovered is to be connected to exactly where it is not connected.
pub proof fn discovered_nodes_are_connected_once<C>(
    s: ConnectionManager<C>,
    node_id: u64,
    addr: SocketAddr,
    r: Option<SocketAddr>,
    linked: bool,
)
    requires
        call_ensures(ConnectionManager::<C>::on_node_discovered, (&s, node_id, addr), r),
        call_ensures(ConnectionManager::<C>::is_connected, (&s, node_id), linked),
    ensures
        linked ==> r is None,
        !linked ==> r == Some(addr),
{
}

/// After all connections were handed out to be closed, each once, none is left.
pub proof fn drained_connections_are_gone<C>(
    before: ConnectionManager<C>,
    after: ConnectionManager<C>,
    r: Vec<C>,
    n: usize,
    left: usize,
    node_id: u64,
    linked: bool,
)
    requires
        exists|m: &mut ConnectionManager<C>|
            *m == before && *final(m) == after && #[trigger] call_ensures(
                ConnectionManager::<C>::drain_connections,
                (m,),
                r,
            ),
        call_ensures(ConnectionManager::<C>::connection_count, (&before,), n),
        call_ensures(ConnectionManager::<C>::connection_count, (&after,), left),
        call_ensures(ConnectionManager::<C>::is_connected, (&after, node_id), linked),
    ensures
        r@.len() == n,
        left == 0,
        !linked,
        before.connected().dom().contains(node_id) ==> r@.contains(before.connected()[node_id]),
{
    let nodes = choose|nodes: Seq<u64>| #[trigger] each_once(nodes, before.connected(), r@);
    if before.connected().dom().contains(node_id) {
        let j = choose|j: int| 0 <= j < nodes.len() && nodes[j] == node_id;
        assert(r@[j] == before.connected()[nodes[j]]);
    }
}

/// The delay before an attempt is the base delay at first, doubles from one attempt to the next,
/// and stops at the largest.
pub proof fn delays_double_up_to_the_largest(
    policy: ReconnectPolicy,
    attempt: u32,
    first: Duration,
    one: Duration,
    next: Duration,
)
    requires
        attempt < u32::MAX,
        call_ensures(ReconnectPolicy::backoff_delay, (&policy, 0), first),
        call_ensures(ReconnectPolicy::backoff_delay, (&policy, attempt), one),
        call_ensures(ReconnectPolicy::backoff_delay, (&policy, (attempt + 1) as u32), next),
    ensures
        policy.base_delay@ <= policy.max_delay@ ==> first@ == policy.base_delay@,
        2 * one@ <= policy.max_delay@ ==> next@ == 2 * one@,
        2 * one@ > policy.max_delay@ ==> next@ == policy.max_delay@,
{
    backoff_doubles(policy.base_delay@, policy.max_delay@, attempt as nat);
}

/// Messages are let out one by one and counted, until no more can come or the time is over; only
/// then is it told whether time ran out.
pub proof fn messages_are_counted_out(
    before: usize,
    event: DrainEvent,
    after: usize,
    r: DrainStep,
)
    requires
        exists|m: &mut usize|
            *m == before && *final(m) == after && #[trigger] call_ensures(
                outbound_step,
                (m, event),
                r,
            ),
    ensures
        r is Route <==> event is Command,
        r is Route ==> after == before + 1,
        r matches DrainStep::Finished { drained, timed_out } ==> drained == before && after == before && (
        timed_out <==> event is TimedOut),
        event matches DrainEvent::Command(RouterCommand::Send { node_id, frame }) ==> r == (
        DrainStep::Route { node_id, frame }),
{
}

/// Waiting for messages ends when the time for them is over: what has passed and what is left make
/// up that time.
pub proof fn time_for_messages_is_shared_out(
    d: NodeDrain,
    elapsed: Duration,
    r: Option<Duration>,
)
    requires
        call_ensures(NodeDrain::outbound_wait, (&d, elapsed), r),
    ensures
        r is None <==> elapsed@ >= d.timing().drain_timeout@,
        r matches Some(left) ==> elapsed@ + left@ == d.timing().drain_timeout@ && left@ > 0,
{
}

/// A node that leaves says so behind what else is to be told, and has no registration left; the
/// others' stay.
pub proof fn leaving_nodes_say_so(
    d: NodeDrain,
    node_id: u64,
    addr: SocketAddr,
    gossip: GossipQueue,
    told: GossipQueue,
    before: Registry,
    after: Registry,
    r: usize,
    e: EntryView,
)
    requires
        exists|q: &mut GossipQueue, g: &mut Registry|
            *q == gossip && *final(q) == told && *g == before && *final(g) == after
                && #[trigger] call_ensures(
                NodeDrain::announce,
                (&d, node_id, addr, q, g),
                r,
            ),
    ensures
        told@ == gossip@.push(GossipUpdate::Leave { node_id, addr }),
        after@.entries.contains(e) ==> e.node_id != node_id,
        before@.entries.contains(e) && e.node_id != node_id ==> after@.entries.contains(e),
{
}

/// Encoding and decoding are each other's inverse: a frame that can travel is read back from its
/// bytes, also with more bytes behind them.
pub proof fn frames_are_read_back(
    f: Frame,
    bytes: Vec<u8>,
    received: &[u8],
    more: Seq<u8>,
    r: Result<Frame, FrameError>,
)
    requires
        f@.can_travel(),
        call_ensures(Frame::encode, (&f,), bytes),
        received@ == bytes@ + more,
        call_ensures(Frame::decode, (received,), r),
    ensures
        r is Ok,
        r->Ok_0@ == f@,
{
    bytes_behind_a_frame_are_ignored(bytes@, more, f@);
}

/// A kind of message is read back from its code, and every code that is none is refused.
pub proof fn kinds_are_read_back(
    t: MsgType,
    v: u8,
    code: u8,
    r: Result<MsgType, FrameError>,
    s: Result<MsgType, FrameError>,
)
    requires
        call_ensures(MsgType::as_u8, (&t,), code),
        call_ensures(MsgType::from_u8, (code,), r),
        call_ensures(MsgType::from_u8, (v,), s),
    ensures
        r == Ok::<MsgType, FrameError>(t),
        s is Ok <==> 1 <= v <= 13,
        s is Err ==> s == Err::<MsgType, FrameError>(FrameError::InvalidMsgType(v)),
{
    if r is Ok {
        msg_type_codes_are_distinct(t, r->Ok_0);
    }
    if s is Ok {
        msg_type_codes_are_distinct(s->Ok_0, s->Ok_0);
    }
}

/// A frame with a header or a payload that could not be read is refused with the reader's words,
/// those on the header first; else it holds what was read.
pub proof fn unread_parts_refuse_a_frame(
    version: u8,
    msg_type: MsgType,
    request_id: u64,
    header: Result<Term, String>,
    payload: Result<Term, String>,
    r: Result<Frame, FrameError>,
)
    requires
        call_ensures(complete_frame, (version, msg_type, request_id, header, payload), r),
    ensures
        r is Ok <==> header is Ok && payload is Ok,
        r matches Ok(f) ==> f.version == version && f.msg_type == msg_type && f.request_id == request_id
            && f.header == header->Ok_0 && f.payload == payload->Ok_0,
        header matches Err(e) ==> r == Err::<Frame, FrameError>(FrameError::MsgpackDecode(e)),
{
}

/// A message for another node goes to the node of its receiver, in a frame that delivers it there:
/// the receiver, on the first thread, is sent the payload from the sender's number.
pub proof fn remote_messages_arrive(
    from: ProcessId,
    to: ProcessId,
    payload: Term,
    command: RouterCommand,
    table: ProcessTable,
    r: Result<(), SendError>,
)
    requires
        to.thread() == 0,
        call_ensures(remote_command, (from, to, payload), command),
        call_ensures(deliver_inbound_frame, (&table, &command->Send_frame), r),
    ensures
        command->Send_node_id == to.node(),
        delivered(table, ProcessId::of(from.node(), 0, from.local()), to, payload@, true, r),
{
    frames_deliver(table, from, to, command->Send_frame, payload@, r);
}

/// A message that the transport does not take makes its node unreachable.
pub proof fn untaken_messages_are_told(
    node_id: u64,
    taken: bool,
    r: Result<(), SendError>,
)
    requires
        call_ensures(remote_result, (node_id, taken), r),
    ensures
        r is Ok <==> taken,
        !taken ==> r == Err::<(), SendError>(SendError::NodeUnreachable(node_id)),
{
}

/// The length that is written before bytes is read back as their number, where it fits; a stream
/// that ends there is closed, and another failure is told as it is.
pub proof fn lengths_are_read_back(
    bytes: Vec<u8>,
    prefix: Vec<u8>,
    r: Result<u64, TransportError>,
    e: IoError,
    s: Result<u64, TransportError>,
)
    requires
        bytes@.len() <= u32::MAX,
        call_ensures(length_prefix, (&bytes,), prefix),
        call_ensures(frame_length, (LengthRead::Full(prefix),), r),
        call_ensures(frame_length, (LengthRead::Failed(e),), s),
    ensures
        prefix@.len() == 4,
        r matches Ok(n) && n == bytes@.len(),
        s is Err,
        e.kind == IoErrorKind::UnexpectedEof <==> s->Err_0 is ConnectionClosed,
        e.kind != IoErrorKind::UnexpectedEof ==> s->Err_0 == TransportError::Io(e),
{
    byte_range_values();
    be_round_trip(bytes@.len(), 4);
}

/// The fingerprint of a certificate that was made is the one that goes with it.
pub proof fn fingerprints_go_with_certificates(
    made: (Vec<u8>, Vec<u8>, CertHash),
    cert: &[u8],
    r: CertHash,
)
    requires
        call_ensures(generate_self_signed_cert, (), made),
        cert@ == made.0@,
        call_ensures(cert_fingerprint, (cert,), r),
    ensures
        r@ == made.2@,
        made.0@.len() == 32,
        made.1@.len() == 32,
{
}

/// The kinds of message have the codes from one on in the order in which they are named.
pub proof fn kinds_have_their_codes(
    t: MsgType,
    r: u8,
)
    requires
        call_ensures(MsgType::as_u8, (&t,), r),
    ensures
        t is Send <==> r == 1,
        t is Monitor <==> r == 2,
        t is Demonitor <==> r == 3,
        t is Link <==> r == 4,
        t is Unlink <==> r == 5,
        t is Exit <==> r == 6,
        t is ProcessDown <==> r == 7,
        t is NameLookup <==> r == 8,
        t is NameRegister <==> r == 9,
        t is NameUnregister <==> r == 10,
        t is Heartbeat <==> r == 11,
        t is HeartbeatAck <==> r == 12,
        t is NodeInfo <==> r == 13,
{
}

/// A frame begins with its version, its kind and its request, the first byte of which counts most,
/// and the lengths of header and payload; then come header and payload.
pub proof fn frames_are_laid_out(
    version: u8,
    msg_type: MsgType,
    request_id: u64,
    header: Vec<u8>,
    payload: Vec<u8>,
    r: Vec<u8>,
)
    requires
        header@.len() <= u32::MAX,
        payload@.len() <= u32::MAX,
        call_ensures(join_frame, (version, msg_type, request_id, &header, &payload), r),
    ensures
        r@.len() == 18 + header@.len() + payload@.len(),
        r@[0] == version,
        r@[1] == msg_type.code(),
        be_value(r@.subrange(2, 10)) == request_id,
        be_value(r@.subrange(10, 14)) == header@.len(),
        be_value(r@.subrange(14, 18)) == payload@.len(),
        r@.subrange(18, 18 + header@.len() as int) == header@,
        r@.skip(18 + header@.len() as int) == payload@,
{
    msg_type_codes_are_distinct(msg_type, msg_type);
    frame_parts(version, msg_type.code(), request_id, header@, payload@);
    be_bytes_len(request_id as nat, 8);
    be_bytes_len(header@.len(), 4);
    be_bytes_len(payload@.len(), 4);
    byte_range_values();
    be_round_trip(header@.len(), 4);
    be_round_trip(payload@.len(), 4);
    assert(r@.subrange(10, 14) =~= be_bytes(header@.len(), 4));
    assert(r@.subrange(14, 18) =~= be_bytes(payload@.len(), 4));
    assert(r@.subrange(18, 18 + header@.len() as int) =~= header@);
    assert(r@.skip(18 + header@.len() as int) =~= payload@);
}

/// What was put together is taken apart: version, kind, request, header and payload are what they
/// were.
pub proof fn frames_are_taken_apart_as_put_together(
    version: u8,
    msg_type: MsgType,
    request_id: u64,
    header: Vec<u8>,
    payload: Vec<u8>,
    bytes: Vec<u8>,
    received: &[u8],
    r: Result<FrameLayout<'static>, FrameError>,
)
    requires
        header@.len() <= u32::MAX,
        payload@.len() <= u32::MAX,
        call_ensures(join_frame, (version, msg_type, request_id, &header, &payload), bytes),
        received@ == bytes@,
        call_ensures(split_frame, (received,), r),
    ensures
        r is Ok,
        r->Ok_0.version == version,
        r->Ok_0.msg_type == msg_type,
        r->Ok_0.request_id == request_id,
        r->Ok_0.header@ == header@,
        r->Ok_0.payload@ == payload@,
{
    msg_type_codes_are_distinct(msg_type, msg_type);
    frame_parts(version, msg_type.code(), request_id, header@, payload@);
    if r is Ok {
        msg_type_codes_are_distinct(msg_type, r->Ok_0.msg_type);
    }
}

/// The frame of a message is one of the first version and of the kind that sends, asks for nothing
/// back, and holds the payload as it is.
pub proof fn message_frames_send(
    from: ProcessId,
    to: ProcessId,
    payload: Term,
    r: Frame,
)
    requires
        call_ensures(encode_send_frame, (from, to, payload), r),
    ensures
        r.version == 1,
        r.msg_type == MsgType::Send,
        r.request_id == 0,
        r.payload == payload,
{
}

/// The address of a frame that was made for a message is read as its sender and receiver, on the
/// first thread of their nodes.
pub proof fn addresses_are_read_back(
    from: ProcessId,
    to: ProcessId,
    payload: Term,
    frame: Frame,
    r: Result<(ProcessId, ProcessId), SendError>,
)
    requires
        to.thread() == 0,
        call_ensures(encode_send_frame, (from, to, payload), frame),
        call_ensures(inbound_address, (&frame.header,), r),
    ensures
        r == Ok::<(ProcessId, ProcessId), SendError>(
            (ProcessId::of(from.node(), 0, from.local()), to),
        ),
{
    address_round_trip(from, to);
}

/// A header that is no mapping is malformed, and an error of reading an address is always that.
pub proof fn headers_are_mappings(
    header: Term,
    r: Result<(ProcessId, ProcessId), SendError>,
)
    requires
        call_ensures(inbound_address, (&header,), r),
    ensures
        !(header@ is Mapping) ==> r is Err,
        r is Err ==> r->Err_0 is MalformedFrame,
{
}

/// A frame that was written to a stream is received as it is, and what is no frame is refused as
/// such.
pub proof fn frames_are_received_as_written(
    f: Frame,
    bytes: Vec<u8>,
    received: &[u8],
    r: Result<Frame, TransportError>,
)
    requires
        f@.can_travel(),
        call_ensures(Frame::encode, (&f,), bytes),
        received@ == bytes@,
        call_ensures(received_frame, (received,), r),
    ensures
        r is Ok,
        r->Ok_0@ == f@,
{
}

/// A connection that was closed has no stream any more: it is told that it is closed.
pub proof fn closed_streams_are_gone<S>(
    before: TcpConnection<S>,
    after: TcpConnection<S>,
    r: Result<(), TransportError>,
)
    requires
        exists|m: &mut TcpConnection<S>|
            *m == before && *final(m) == after && #[trigger] call_ensures(
                TcpConnection::<S>::close,
                (m,),
                r,
            ),
    ensures
        r is Ok,
        after.open_stream() is None,
{
}

/// Events that were taken are not taken again.
pub proof fn events_are_taken_once<C>(
    before: ConnectionManager<C>,
    between: ConnectionManager<C>,
    first: Vec<ConnectionEvent>,
    after: ConnectionManager<C>,
    second: Vec<ConnectionEvent>,
)
    requires
        exists|m: &mut ConnectionManager<C>|
            *m == before && *final(m) == between && #[trigger] call_ensures(
                ConnectionManager::<C>::drain_events,
                (m,),
                first,
            ),
        exists|m: &mut ConnectionManager<C>|
            *m == between && *final(m) == after && #[trigger] call_ensures(
                ConnectionManager::<C>::drain_events,
                (m,),
                second,
            ),
    ensures
        first@ == before.pending(),
        second@.len() == 0,
        after.connected() == before.connected(),
{
}

/// A registration that was made is held under the tag that is given, beside all that were.
pub proof fn registrations_are_held(
    before: Registry,
    name: &str,
    pid: ProcessId,
    node_id: u64,
    timestamp: u64,
    after: Registry,
    tag: u128,
    e: EntryView,
)
    requires
        exists|m: &mut Registry|
            *m == before && *final(m) == after && #[trigger] call_ensures(
                Registry::register,
                (m, name, pid, node_id, timestamp),
                tag,
            ),
    ensures
        after@.entries.contains(EntryView { name: name@, pid, tag, timestamp, node_id }),
        before@.entries.contains(e) ==> after@.entries.contains(e),
        after@.tombstones == before@.tombstones,
{
    assert(after@.entries[before@.entries.len() as int] == (EntryView {
        name: name@,
        pid,
        tag,
        timestamp,
        node_id,
    }));
    if before@.entries.contains(e) {
        let i = choose|i: int| 0 <= i < before@.entries.len() && before@.entries[i] == e;
        assert(after@.entries[i] == e);
    }
}

/// An error of a connection says what went wrong, and names the node that it is about.
pub proof fn connection_errors_say_what_went_wrong(
    e: ConnectionError,
    r: String,
)
    requires
        call_ensures(ConnectionError::to_string, (&e,), r),
    ensures
        e matches ConnectionError::UnknownNode(n) ==> r@ == "unknown node: "@ + decimal(n as nat),
        e matches ConnectionError::AlreadyConnected(n) ==> r@ == "already connected to node: "@ + decimal(
            n as nat,
        ),
        e matches ConnectionError::Transport(t) ==> r@ == "transport error: "@ + transport_error_text(t),
{
}

/// An error of a transport says what went wrong, in the words of what it is about.
pub proof fn transport_errors_say_what_went_wrong(
    e: TransportError,
    r: String,
)
    requires
        call_ensures(TransportError::to_string, (&e,), r),
    ensures
        e matches TransportError::Io(io) ==> r@ == "io error: "@ + io.message@,
        e is ConnectionClosed ==> r@ == "connection closed"@,
        e matches TransportError::Frame(f) ==> r@ == "frame error: "@ + frame_error_text(f),
{
}

/// An error of a frame says what went wrong, with the numbers that it is about.
pub proof fn frame_errors_say_what_went_wrong(
    e: FrameError,
    r: String,
)
    requires
        call_ensures(FrameError::to_string, (&e,), r),
    ensures
        e matches FrameError::InvalidMsgType(n) ==> r@ == "invalid message type: "@ + decimal(n as nat),
        e matches FrameError::TooShort { expected, actual } ==> r@ == "frame too short: need at least "@
            + decimal(expected as nat) + " bytes, got "@ + decimal(actual as nat),
        e matches FrameError::MsgpackDecode(text) ==> r@ == "msgpack decode error: "@ + text@,
        e matches FrameError::MsgpackEncode(text) ==> r@ == "msgpack encode error: "@ + text@,
        e matches FrameError::MalformedFrame(text) ==> r@ == "malformed frame: "@ + text@,
        e matches FrameError::Send(inner) ==> r@ == send_error_text(inner),
{
}

/// An address of four numbers stands for the number that they are as bytes, the first of which
/// counts most, and holds its port.
pub proof fn addresses_hold_their_numbers(a: u8, b: u8, c: u8, d: u8, p: u16, r: SocketAddr)
    requires
        call_ensures(SocketAddr::v4, (a, b, c, d, p), r),
    ensures
        r matches SocketAddr::V4 { ip, port } && ip == be_value(seq![a, b, c, d]) && port == p,
{
    reveal_with_fuel(be_value, 5);
    assert(seq![a, b, c, d].drop_last() =~= seq![a, b, c]);
    assert(seq![a, b, c].drop_last() =~= seq![a, b]);
    assert(seq![a, b].drop_last() =~= seq![a]);
    assert(seq![a].drop_last() =~= Seq::<u8>::empty());
}

/// The transport that is not there refuses every use as not supported.
pub proof fn the_missing_transport_refuses(
    t: QuicTransport,
    addr: SocketAddr,
    hash: CertHash,
    a: Result<QuicListener, TransportError>,
    b: Result<QuicConnection, TransportError>,
    l: QuicListener,
    c: Result<QuicConnection, TransportError>,
)
    requires
        call_ensures(QuicTransport::listen, (&t, addr), a),
        call_ensures(QuicTransport::connect, (&t, addr, hash), b),
        call_ensures(QuicListener::accept, (&l,), c),
    ensures
        a matches Err(e) && (e matches TransportError::Io(io) && io.kind == IoErrorKind::Unsupported
            && io.message@ == "QUIC transport not yet implemented (stub)"@),
        b matches Err(e) && (e matches TransportError::Io(io) && io.kind == IoErrorKind::Unsupported),
        c matches Err(e) && (e matches TransportError::Io(io) && io.kind == IoErrorKind::Unsupported),
{
}

/// Random bytes become a certificate and a key by halves, none lost.
pub proof fn halves_make_the_whole(
    bytes: [u8; 64],
    r: (Vec<u8>, Vec<u8>),
)
    requires
        call_ensures(split_bytes, (&bytes,), r),
    ensures
        r.0@ + r.1@ == bytes@,
        r.0@.len() == r.1@.len(),
{
    assert(r.0@ + r.1@ =~= bytes@);
}

/// The router of a node delivers to its own processes, and tells of those that are dead; a message
/// for another node is handed to the transport for that node, and the node is unreachable where it
/// is not taken.
pub proof fn routers_deliver_here_or_hand_over(
    router: DistributedRouter,
    home: ProcessTable,
    from: ProcessId,
    to: ProcessId,
    payload: Term,
    r: Result<(), SendError>,
)
    requires
        call_ensures(
            <DistributedRouter as MessageRouter>::route,
            (&router, &home, from, to, payload),
            r,
        ),
    ensures
        to.node() == router.node() ==> delivered(home, from, to, payload@, true, r),
        to.node() == router.node() && !home.alive().dom().contains(to) ==> r == Err::<(), SendError>(
            SendError::ProcessDead(to),
        ),
        to.node() != router.node() ==> r is Ok || r == Err::<(), SendError>(
            SendError::NodeUnreachable(to.node()),
        ),
        to.node() != router.node() ==> exists|c: RouterCommand, taken: bool| #[trigger]
            router.hands(c, taken) && c->Send_node_id == to.node() && (taken <==> r is Ok),
{
}

/// A frame whose header is no address is refused as malformed, and delivers nothing.
pub proof fn frames_without_address_are_refused(
    table: ProcessTable,
    frame: Frame,
    r: Result<(), SendError>,
)
    requires
        address_of(frame.header@) is Err,
        call_ensures(deliver_inbound_frame, (&table, &frame), r),
    ensures
        r is Err,
        r->Err_0 is MalformedFrame,
{
}

/// Where nothing else is said, leaving gives five seconds to announce, thirty to let messages out
/// and ten to stop, and connecting again waits from one second up to thirty.
pub proof fn leaving_and_reconnecting_have_their_times(
    d: DrainConfig,
    p: ReconnectPolicy,
)
    requires
        call_ensures(<DrainConfig as Default>::default, (), d),
        call_ensures(<ReconnectPolicy as Default>::default, (), p),
    ensures
        d.announce_timeout@ == 5_000_000_000,
        d.drain_timeout@ == 30_000_000_000,
        d.shutdown_timeout@ == 10_000_000_000,
        p.base_delay@ == 1_000_000_000,
        p.max_delay@ == 30_000_000_000,
{
}

} // verus!
