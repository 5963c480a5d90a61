//! What happens to processes and supervisors, for those who want to know.
use crate::process::types::{clock_millis, clock_read};
use crate::process::{ExitReason, ProcessId};
use crate::supervisor::spec::RestartStrategy;
use tokio::sync::broadcast;
use vstd::prelude::*;

verus! {

/// What can happen to a process or a supervisor, with the time in milliseconds since the Unix
/// epoch.
#[derive(Debug, Clone)]
pub enum LifecycleEvent {
    ProcessSpawned {
        pid: ProcessId,
        parent: Option<ProcessId>,
        name: Option<String>,
        timestamp: u64,
    },
    ProcessExited { pid: ProcessId, reason: ExitReason, timestamp: u64 },
    SupervisorStarted {
        pid: ProcessId,
        strategy: RestartStrategy,
        child_ids: Vec<String>,
        timestamp: u64,
    },
    ChildStarted {
        supervisor_pid: ProcessId,
        child_pid: ProcessId,
        child_id: String,
        timestamp: u64,
    },
    ChildExited {
        supervisor_pid: ProcessId,
        child_pid: ProcessId,
        child_id: String,
        reason: ExitReason,
        timestamp: u64,
    },
    ChildRestarted {
        supervisor_pid: ProcessId,
        old_pid: ProcessId,
        new_pid: ProcessId,
        child_id: String,
        restart_count: u32,
        timestamp: u64,
    },
    SupervisorMaxRestartsExceeded { pid: ProcessId, timestamp: u64 },
}

impl LifecycleEvent {
    /// The current time in milliseconds since the Unix epoch, by the clock.
    pub fn now() -> (r: u64)
        ensures
            clock_read(r),
    {
        clock_millis()
    }
}

#[verifier::external_type_specification]
#[verifier::external_body]
#[verifier::reject_recursive_types(T)]
pub struct ExBroadcastSender<T>(broadcast::Sender<T>);

#[verifier::external_type_specification]
#[verifier::external_body]
#[verifier::reject_recursive_types(T)]
pub struct ExBroadcastReceiver<T>(broadcast::Receiver<T>);

/// How many events the channel of a sender holds for receivers that lag behind.
pub uninterp spec fn bus_room(tx: broadcast::Sender<LifecycleEvent>) -> nat;

/// How many events the channel of a receiver holds for it.
pub uninterp spec fn receiver_room(rx: broadcast::Receiver<LifecycleEvent>) -> nat;

/// Whether a channel that was asked to hold `capacity` events holds `room` of them: the capacity,
/// rounded up to a power of two.
pub open spec fn is_room_for(room: nat, capacity: usize) -> bool {
    &&& vstd::arithmetic::power2::is_pow2(room as int)
    &&& capacity <= room < 2 * capacity
}

/// `tokio::sync::broadcast::channel`, without its first receiver. The channel panics on a
/// capacity of zero or of more than half of what a `usize` can hold. Claimed: how many events it
/// holds, which is fixed when it is made.
#[verifier::external_body]
fn open_bus(capacity: usize) -> (r: broadcast::Sender<LifecycleEvent>)
    requires
        0 < capacity <= usize::MAX / 2,
    ensures
        is_room_for(bus_room(r), capacity),
{
    broadcast::channel(capacity).0
}

/// `tokio::sync::broadcast::Sender::send`, as whether there was a receiver. That depends on who
/// holds one, so nothing is claimed of it.
#[verifier::external_body]
fn put_event(tx: &broadcast::Sender<LifecycleEvent>, event: LifecycleEvent) -> bool {
    tx.send(event).is_ok()
}

/// `tokio::sync::broadcast::Sender::subscribe`: a receiver of what is sent from now on. Claimed:
/// the receiver is one of a channel with the room of the sender's. What it receives depends on
/// the senders, so nothing is claimed of that.
#[verifier::external_body]
fn open_receiver(tx: &broadcast::Sender<LifecycleEvent>) -> (r: broadcast::Receiver<
    LifecycleEvent,
>)
    ensures
        receiver_room(r) == bus_room(*tx),
{
    tx.subscribe()
}

/// `tokio::sync::broadcast::Sender::clone`: another sender of the channel, which has the same
/// room.
#[verifier::external_body]
fn share_bus(tx: &broadcast::Sender<LifecycleEvent>) -> (r: broadcast::Sender<LifecycleEvent>)
    ensures
        bus_room(r) == bus_room(*tx),
{
    tx.clone()
}

/// A bus for events, with any number of subscribers. A subscriber that lags behind loses old
/// events; it holds nobody up.
pub struct EventBus {
    tx: broadcast::Sender<LifecycleEvent>,
}

impl EventBus {
    /// How many events the bus keeps for subscribers that lag behind.
    pub closed spec fn room(self) -> nat {
        bus_room(self.tx)
    }

    /// A bus that keeps the given number of events, rounded up to a power of two, for
    /// subscribers that lag behind.
    pub fn new(capacity: usize) -> (r: Self)
        requires
            0 < capacity <= usize::MAX / 2,
        ensures
            is_room_for(r.room(), capacity),
    {
        Self { tx: open_bus(capacity) }
    }

    /// Whether the event was handed to the channel of the bus.
    pub closed spec fn told(self, event: LifecycleEvent) -> bool {
        exists|taken: bool| #[trigger] call_ensures(put_event, (&self.tx, event), taken)
    }

    /// Hands an event to the subscribers; without any it does nothing.
    pub fn emit(&self, event: LifecycleEvent)
        ensures
            self.told(event),
    {
        let ghost handed = event;
        let taken = put_event(&self.tx, event);
        assert(call_ensures(put_event, (&self.tx, handed), taken));
    }

    /// Whether the receiver came from subscribing to the channel of the bus.
    pub closed spec fn subscribed(self, rx: broadcast::Receiver<LifecycleEvent>) -> bool {
        call_ensures(open_receiver, (&self.tx,), rx)
    }

    /// Whether another is one more holder of the same channel.
    pub closed spec fn shared_as(self, other: EventBus) -> bool {
        call_ensures(share_bus, (&self.tx,), other.tx)
    }

    /// Subscribes to the events from now on. A subscriber may lag behind by as many events as the
    /// bus keeps. Which events come depends on those who emit, so nothing is promised of that.
    pub fn subscribe(&self) -> (r: broadcast::Receiver<LifecycleEvent>)
        ensures
            self.subscribed(r),
            receiver_room(r) == self.room(),
    {
        open_receiver(&self.tx)
    }
}

impl Clone for EventBus {
    fn clone(&self) -> (r: Self)
        ensures
            self.shared_as(r),
            r.room() == self.room(),
    {
        EventBus { tx: share_bus(&self.tx) }
    }
}

/// What is told of a process that was spawned.
pub fn spawned_event(pid: ProcessId, timestamp: u64) -> (r: LifecycleEvent)
    ensures
        r == (LifecycleEvent::ProcessSpawned { pid, parent: None, name: None, timestamp }),
{
    LifecycleEvent::ProcessSpawned { pid, parent: None, name: None, timestamp }
}

/// What is told of a process that ended.
pub fn exited_event(pid: ProcessId, reason: ExitReason, timestamp: u64) -> (r: LifecycleEvent)
    ensures
        r == (LifecycleEvent::ProcessExited { pid, reason, timestamp }),
{
    LifecycleEvent::ProcessExited { pid, reason, timestamp }
}

/// What is told of a process names it, and its end the reason for it.
pub proof fn events_name_their_process(
    p: ProcessId,
    why: ExitReason,
    time: u64,
    up: LifecycleEvent,
    down: LifecycleEvent,
)
    requires
        call_ensures(spawned_event, (p, time), up),
        call_ensures(exited_event, (p, why, time), down),
    ensures
        up matches LifecycleEvent::ProcessSpawned { pid, timestamp, .. } && pid == p && timestamp == time,
        down matches LifecycleEvent::ProcessExited { pid, reason, timestamp } && pid == p && reason == why
            && timestamp == time,
{
}

} // verus!
