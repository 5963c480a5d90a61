//! The runtime of a node: it puts processes into a table, and routes messages between them.
use crate::events::{exited_event, spawned_event, EventBus, LifecycleEvent};
use crate::io::{io_error, io_error_kind, is_worded, IoError};
use crate::process::mailbox::{
    takes_bounded, takes_unbounded, unbounded_pair, Mailbox, MailboxRx, RxInner,
};
use crate::process::types::clock_read;
use crate::process::table::{names_without, ProcessHandle, ProcessTable};
use crate::process::{ExitReason, Message, ProcessId, RegistryError, SendError};
use crate::router::{delivered, LocalRouter, MessageRouter};
use crate::term::Term;
use std::sync::Arc;
use tokio::runtime::Runtime as TokioRuntime;
use tokio::sync::mpsc;
use vstd::prelude::*;

verus! {

/// Whether a bus was told that the process was spawned, at some time that the clock gave.
pub open spec fn told_of_spawn(bus: EventBus, pid: ProcessId) -> bool {
    exists|timestamp: u64|
        clock_read(timestamp) && #[trigger] bus.told(
            LifecycleEvent::ProcessSpawned { pid, parent: None, name: None, timestamp },
        )
}

/// Whether a bus was told that the process ended for the reason, at some time that the clock
/// gave.
pub open spec fn told_of_exit(bus: EventBus, pid: ProcessId, reason: ExitReason) -> bool {
    exists|timestamp: u64|
        clock_read(timestamp) && #[trigger] bus.told(
            LifecycleEvent::ProcessExited { pid, reason, timestamp },
        )
}

/// What a process knows of itself: its identity, and its mailbox.
pub struct ProcessContext {
    pid: ProcessId,
    rx: MailboxRx,
}

impl ProcessContext {
    pub closed spec fn identity(self) -> ProcessId {
        self.pid
    }

    pub closed spec fn mailbox(self) -> MailboxRx {
        self.rx
    }

    /// The identity of the process.
    pub fn self_pid(&self) -> (r: ProcessId)
        ensures
            r == self.identity(),
    {
        self.pid
    }

    /// The mailbox of the process, to wait for messages on.
    pub fn mailbox_mut(&mut self) -> (r: &mut MailboxRx)
        ensures
            *r == old(self).mailbox(),
            final(self).mailbox() == *final(r),
            final(self).identity() == old(self).identity(),
    {
        &mut self.rx
    }

    /// Takes the next message out of the mailbox, if one is there. What is there depends on who
    /// sent what, so nothing more is promised of it.
    pub fn try_recv(&mut self) -> (r: Option<Message>)
        ensures
            final(self).identity() == old(self).identity(),
            match (old(self).mailbox().inner, final(self).mailbox().inner) {
                (RxInner::Unbounded(a), RxInner::Unbounded(b)) => exists|
                    m: &mut mpsc::UnboundedReceiver<Message>,
                | *m == a && *final(m) == b && #[trigger] takes_unbounded(m, r),
                (RxInner::Bounded(a), RxInner::Bounded(b)) => exists|
                    m: &mut mpsc::Receiver<Message>,
                | *m == a && *final(m) == b && #[trigger] takes_bounded(m, r),
                _ => false,
            },
    {
        self.rx.try_recv()
    }

    /// Sends a message from the process, through its runtime.
    pub fn send<R: MessageRouter>(&self, runtime: &Runtime<R>, dest: ProcessId, payload: Term) -> (r:
        Result<(), SendError>)
        requires
            runtime.wf(),
        ensures
            runtime.answers(self.identity(), dest, payload, r),
    {
        runtime.send_from(self.pid, dest, payload)
    }
}

/// The runtime of a node. Messages go to the processes of its table, or through a router that is
/// given this table.
pub struct Runtime<R: MessageRouter> {
    node_id: u64,
    table: ProcessTable,
    router: Option<Arc<R>>,
    events: Option<EventBus>,
}

impl Runtime<LocalRouter> {
    /// The runtime of a node, without processes.
    pub fn new(node_id: u64) -> (r: Self)
        ensures
            r.wf(),
            r.node() == node_id,
            r.processes().node() == node_id,
            r.processes().thread() == 0,
            r.processes().next_local() == 1,
            r.processes().alive() == Map::<ProcessId, ProcessHandle>::empty(),
            r.processes().named() == Map::<Seq<char>, ProcessId>::empty(),
            r.processes().attached() is None,
            r.routes_by() is None,
            r.bus() is None,
    {
        Self { node_id, table: ProcessTable::new(node_id, 0), router: None, events: None }
    }
}

impl<R: MessageRouter> Runtime<R> {
    pub closed spec fn node(self) -> u64 {
        self.node_id
    }

    pub closed spec fn processes(self) -> ProcessTable {
        self.table
    }

    /// The router that is not the table's own.
    pub closed spec fn routes_by(self) -> Option<Arc<R>> {
        self.router
    }

    pub closed spec fn bus(self) -> Option<EventBus> {
        self.events
    }

    /// Validity: that of the table.
    pub open spec fn wf(self) -> bool {
        self.processes().wf()
    }

    /// Whether another has the same node, router and bus.
    pub open spec fn same_set_up(self, other: Self) -> bool {
        self.node() == other.node() && self.routes_by() == other.routes_by() && self.bus()
            == other.bus()
    }

    /// The runtime of a node over a table, with a router for its messages.
    pub fn with_router(node_id: u64, table: ProcessTable, router: Arc<R>) -> (r: Self)
        requires
            table.wf(),
        ensures
            r.wf(),
            r.node() == node_id,
            r.processes() == table,
            r.routes_by() == Some(router),
            r.bus() is None,
    {
        Self { node_id, table, router: Some(router), events: None }
    }

    /// Tells a bus what happens to the processes.
    pub fn with_event_bus(self, bus: EventBus) -> (r: Self)
        requires
            self.wf(),
        ensures
            r.wf(),
            r.node() == self.node(),
            r.processes() == self.processes(),
            r.routes_by() == self.routes_by(),
            r.bus() == Some(bus),
    {
        Self { node_id: self.node_id, table: self.table, router: self.router, events: Some(bus) }
    }

    /// The bus that is told what happens to the processes.
    pub fn event_bus(&self) -> (r: Option<&EventBus>)
        ensures
            match r {
                Some(bus) => self.bus() == Some(*bus),
                None => self.bus() is None,
            },
    {
        match &self.events {
            Some(bus) => Some(bus),
            None => None,
        }
    }

    /// The processes.
    pub fn table(&self) -> (r: &ProcessTable)
        ensures
            *r == self.processes(),
    {
        &self.table
    }

    /// The processes, to be changed.
    pub fn table_mut(&mut self) -> (r: &mut ProcessTable)
        ensures
            *r == old(self).processes(),
            final(self).processes() == *final(r),
            final(self).same_set_up(*old(self)),
    {
        &mut self.table
    }

    /// The number of the node.
    pub fn node_id(&self) -> (r: u64)
        ensures
            r == self.node(),
    {
        self.node_id
    }

    /// A new process, with an unbounded mailbox. The handler of the process is run with what is
    /// given back, and its end is told by `finished`.
    pub fn spawn(&mut self) -> (r: ProcessContext)
        requires
            old(self).wf(),
            old(self).processes().next_local() < u64::MAX,
        ensures
            final(self).wf(),
            final(self).same_set_up(*old(self)),
            r.identity() == ProcessId::of(
                old(self).processes().node(),
                old(self).processes().thread(),
                old(self).processes().next_local(),
            ),
            r.mailbox().inner is Unbounded,
            unbounded_pair(
                final(self).processes().alive()[r.identity()].mailbox(),
                r.mailbox(),
            ),
            old(self).bus() matches Some(bus) ==> told_of_spawn(bus, r.identity()),
            final(self).processes().same_identity(old(self).processes()),
            final(self).processes().next_local() == old(self).processes().next_local() + 1,
            final(self).processes().named() == old(self).processes().named(),
            final(self).processes().alive().dom().contains(r.identity()),
            final(self).processes().alive()[r.identity()].mailbox().inner is Unbounded,
            final(self).processes().alive() == old(self).processes().alive().insert(
                r.identity(),
                final(self).processes().alive()[r.identity()],
            ),
    {
        let pid = self.table.allocate_pid();
        let (tx, rx) = Mailbox::unbounded();
        self.table.insert(pid, ProcessHandle::new(tx));
        match &self.events {
            Some(bus) => bus.emit(spawned_event(pid, LifecycleEvent::now())),
            None => {},
        }
        ProcessContext { pid, rx }
    }

    /// The handler of a process came to its end, by itself or by a panic: the process leaves the
    /// table, with its names.
    pub fn finished(&mut self, pid: ProcessId, reason: ExitReason)
        requires
            old(self).wf(),
        ensures
            final(self).wf(),
            final(self).same_set_up(*old(self)),
            final(self).processes().same_identity(old(self).processes()),
            final(self).processes().next_local() == old(self).processes().next_local(),
            final(self).processes().alive() == old(self).processes().alive().remove(pid),
            final(self).processes().named() == names_without(old(self).processes().named(), pid),
            old(self).bus() matches Some(bus) ==> told_of_exit(bus, pid, reason),
    {
        self.table.remove(&pid);
        match &self.events {
            Some(bus) => bus.emit(exited_event(pid, reason, LifecycleEvent::now())),
            None => {},
        }
    }

    /// Gives a process a name. The process must be alive and the name free.
    pub fn register(&mut self, name: String, pid: ProcessId) -> (r: Result<(), RegistryError>)
        requires
            old(self).wf(),
        ensures
            final(self).wf(),
            final(self).same_set_up(*old(self)),
            final(self).processes().same_identity(old(self).processes()),
            final(self).processes().next_local() == old(self).processes().next_local(),
            final(self).processes().alive() == old(self).processes().alive(),
            if !old(self).processes().alive().dom().contains(pid) {
                &&& r == Err::<(), RegistryError>(RegistryError::ProcessNotFound(pid))
                &&& final(self).processes().named() == old(self).processes().named()
            } else if old(self).processes().named().dom().contains(name@) {
                &&& r == Err::<(), RegistryError>(RegistryError::NameAlreadyRegistered(name))
                &&& final(self).processes().named() == old(self).processes().named()
            } else {
                &&& r == Ok::<(), RegistryError>(())
                &&& final(self).processes().named() == old(self).processes().named().insert(
                    name@,
                    pid,
                )
            },
    {
        self.table.register_name(name, pid)
    }

    /// Sends a message from outside any process: the sender is process zero of the node.
    pub fn send(&self, dest: ProcessId, payload: Term) -> (r: Result<(), SendError>)
        requires
            self.wf(),
        ensures
            self.answers(ProcessId::of(self.node(), 0, 0), dest, payload, r),
    {
        self.send_from(ProcessId::new(self.node_id, 0, 0), dest, payload)
    }

    /// Whether `r` is what came of sending a message: the router was asked to route it, or the
    /// table to deliver it where there is no router.
    pub open spec fn answers(
        self,
        from: ProcessId,
        dest: ProcessId,
        payload: Term,
        r: Result<(), SendError>,
    ) -> bool {
        match self.routes_by() {
            Some(router) => call_ensures(
                R::route,
                (&*router, &self.processes(), from, dest, payload),
                r,
            ),
            None => delivered(self.processes(), from, dest, payload@, false, r),
        }
    }

    /// Sends a message from a process.
    pub fn send_from(&self, from: ProcessId, dest: ProcessId, payload: Term) -> (r: Result<
        (),
        SendError,
    >)
        requires
            self.wf(),
        ensures
            self.answers(from, dest, payload, r),
    {
        match &self.router {
            Some(router) => router.route(&self.table, from, dest, payload),
            None => {
                let msg = Message::new_internal(from, payload);
                let ghost sent = msg;
                let r = self.table.send(dest, msg);
                assert(self.table.answers(dest, sent, r));
                r
            },
        }
    }
}

/// A runtime with a local router delivers to its own processes: what is sent to one of them goes
/// into the mailbox that the table holds for it.
pub proof fn local_routers_reach_home(
    runtime: Runtime<LocalRouter>,
    from: ProcessId,
    dest: ProcessId,
    payload: Term,
    r: Result<(), SendError>,
)
    requires
        runtime.wf(),
        runtime.answers(from, dest, payload, r),
    ensures
        delivered(runtime.processes(), from, dest, payload@, false, r),
{
}

/// A process that was spawned is alive, and one that is finished is not; the others stay as they
/// were.
pub proof fn processes_come_and_go<R: MessageRouter>(
    before: Runtime<R>,
    spawned: Runtime<R>,
    after: Runtime<R>,
    pid: ProcessId,
)
    requires
        !before.processes().alive().dom().contains(pid),
        spawned.processes().alive() == before.processes().alive().insert(
            pid,
            spawned.processes().alive()[pid],
        ),
        after.processes().alive() == spawned.processes().alive().remove(pid),
    ensures
        spawned.processes().alive().dom().contains(pid),
        !after.processes().alive().dom().contains(pid),
        after.processes().alive() == before.processes().alive(),
{
    assert(after.processes().alive() =~= before.processes().alive());
}

#[verifier::external_type_specification]
#[verifier::external_body]
pub struct ExTokioRuntime(TokioRuntime);

#[verifier::external_type_specification]
#[verifier::external_body]
pub struct ExTokioBuilder(tokio::runtime::Builder);

/// What threads are started with: how many workers, or as many as there are cores, their name,
/// or the usual one, and whether input, output and time are enabled.
#[verifier::ext_equal]
pub struct ThreadSettings {
    pub workers: Option<usize>,
    pub name: Option<Seq<char>>,
    pub enabled: bool,
}

/// What a builder of threads is set to.
pub uninterp spec fn builder_settings(builder: tokio::runtime::Builder) -> ThreadSettings;

/// What threads were started with.
pub uninterp spec fn thread_settings(threads: TokioRuntime) -> ThreadSettings;

/// `tokio::runtime::Builder::new_multi_thread`: the defaults for a runtime of many threads.
/// Claimed: no number and no name is set, and nothing is enabled.
#[verifier::external_body]
fn multi_thread() -> (r: tokio::runtime::Builder)
    ensures
        builder_settings(r) == (ThreadSettings { workers: None, name: None, enabled: false }),
{
    tokio::runtime::Builder::new_multi_thread()
}

/// `tokio::runtime::Builder::enable_all`: with input, output and time. Claimed: it sets that, and
/// nothing else.
#[verifier::external_body]
fn enable_all(builder: &mut tokio::runtime::Builder)
    ensures
        builder_settings(*final(builder)) == (ThreadSettings {
            enabled: true,
            ..builder_settings(*old(builder))
        }),
{
    builder.enable_all();
}

/// `tokio::runtime::Builder::worker_threads`, which panics on zero threads. Claimed: it sets the
/// number of workers, and nothing else.
#[verifier::external_body]
fn set_worker_threads(builder: &mut tokio::runtime::Builder, n: usize)
    requires
        n > 0,
    ensures
        builder_settings(*final(builder)) == (ThreadSettings {
            workers: Some(n),
            ..builder_settings(*old(builder))
        }),
{
    builder.worker_threads(n);
}

/// `tokio::runtime::Builder::thread_name`. A thread cannot be named with a zero character.
/// Claimed: it sets the name, and nothing else.
#[verifier::external_body]
fn set_thread_name(builder: &mut tokio::runtime::Builder, name: String)
    requires
        !name@.contains('\0'),
    ensures
        builder_settings(*final(builder)) == (ThreadSettings {
            name: Some(name@),
            ..builder_settings(*old(builder))
        }),
{
    builder.thread_name(name);
}

/// `tokio::runtime::Builder::build`: starts the threads, with a number of workers that the
/// environment or the cores give where none is set. Claimed: threads that start are as the
/// builder was set. The error is that input and output cannot be enabled, which is up to the
/// system, so nothing is claimed of when it comes. Where the system refuses a thread, the call
/// panics.
#[verifier::external_body]
fn start_threads(builder: &mut tokio::runtime::Builder) -> (r: Result<
    TokioRuntime,
    std::io::Error,
>)
    ensures
        r matches Ok(threads) ==> thread_settings(threads) == builder_settings(*old(builder)),
{
    builder.build()
}

/// Whether `started` is what came of starting threads with the settings.
pub closed spec fn launched(
    settings: ThreadSettings,
    started: Result<TokioRuntime, std::io::Error>,
) -> bool {
    exists|builder: &mut tokio::runtime::Builder|
        builder_settings(*builder) == settings && #[trigger] call_ensures(
            start_threads,
            (builder,),
            started,
        )
}

/// A builder of a runtime with threads of its own.
pub struct RuntimeBuilder {
    node_id: u64,
    worker_threads: Option<usize>,
    thread_name: Option<String>,
}

impl RuntimeBuilder {
    pub closed spec fn node(self) -> u64 {
        self.node_id
    }

    pub closed spec fn threads(self) -> Option<usize> {
        self.worker_threads
    }

    pub closed spec fn name(self) -> Option<String> {
        self.thread_name
    }

    /// A builder for the node, with as many threads as there are cores.
    pub fn new(node_id: u64) -> (r: Self)
        ensures
            r.node() == node_id,
            r.threads() is None,
            r.name() is None,
    {
        Self { node_id, worker_threads: None, thread_name: None }
    }

    /// With that many threads.
    pub fn worker_threads(self, n: usize) -> (r: Self)
        ensures
            r.node() == self.node(),
            r.threads() == Some(n),
            r.name() == self.name(),
    {
        Self {
            node_id: self.node_id,
            worker_threads: Some(n),
            thread_name: self.thread_name,
        }
    }

    /// With that name for the threads.
    pub fn thread_name(self, name: &str) -> (r: Self)
        ensures
            r.node() == self.node(),
            r.threads() == self.threads(),
            r.name() is Some,
            r.name()->0@ == name@,
    {
        Self {
            node_id: self.node_id,
            worker_threads: self.worker_threads,
            thread_name: Some(name.to_string()),
        }
    }

    /// What the threads are to be started with.
    pub open spec fn settings(self) -> ThreadSettings {
        ThreadSettings {
            workers: self.threads(),
            name: match self.name() {
                Some(name) => Some(name@),
                None => None,
            },
            enabled: true,
        }
    }

    /// The threads and the runtime of the node, where threads with these settings could be
    /// started. Whether they can is up to the system.
    pub fn build(self) -> (r: Result<(TokioRuntime, Runtime<LocalRouter>), IoError>)
        requires
            self.threads() != Some(0usize),
            self.name() matches Some(name) ==> !name@.contains('\0'),
        ensures
            exists|started: Result<TokioRuntime, std::io::Error>| #[trigger]
                launched(self.settings(), started) && is_built(self.node(), started, r),
            r matches Ok(pair) ==> thread_settings(pair.0) == self.settings(),
            r matches Ok(pair) ==> {
                &&& thread_settings(pair.0).workers == self.threads()
                &&& thread_settings(pair.0).enabled
                &&& self.name() is None <==> thread_settings(pair.0).name is None
                &&& self.name() matches Some(name) ==> thread_settings(pair.0).name == Some(name@)
                &&& pair.1.node() == self.node()
                &&& pair.1.wf()
            },
    {
        let mut builder = multi_thread();
        enable_all(&mut builder);
        if let Some(n) = self.worker_threads {
            set_worker_threads(&mut builder, n);
        }
        if let Some(name) = self.thread_name {
            set_thread_name(&mut builder, name);
        }
        assert(builder_settings(builder) =~= self.settings());
        let started = start_threads(&mut builder);
        assert(launched(self.settings(), started));
        built(self.node_id, started)
    }
}

/// Whether a runtime is that of the node before anything ran on it.
pub open spec fn is_fresh<R: MessageRouter>(runtime: Runtime<R>, node: u64) -> bool {
    &&& runtime.wf()
    &&& runtime.node() == node
    &&& runtime.processes().node() == node
    &&& runtime.processes().thread() == 0
    &&& runtime.processes().next_local() == 1
    &&& runtime.processes().alive() == Map::<ProcessId, ProcessHandle>::empty()
    &&& runtime.processes().named() == Map::<Seq<char>, ProcessId>::empty()
    &&& runtime.processes().attached() is None
    &&& runtime.routes_by() is None
    &&& runtime.bus() is None
}

/// Whether `r` is what a node is built to, given what came of starting its threads: the threads
/// and the fresh runtime of the node, or the error.
pub open spec fn is_built(
    node: u64,
    started: Result<TokioRuntime, std::io::Error>,
    r: Result<(TokioRuntime, Runtime<LocalRouter>), IoError>,
) -> bool {
    match started {
        Ok(threads) => r matches Ok(pair) && pair.0 == threads && is_fresh(pair.1, node),
        Err(e) => r matches Err(error) && error.kind == io_error_kind(e) && is_worded(
            e,
            error.message,
        ),
    }
}

/// The threads and the runtime of the node, if the threads could be started, and else why not.
pub fn built(node_id: u64, started: Result<TokioRuntime, std::io::Error>) -> (r: Result<
    (TokioRuntime, Runtime<LocalRouter>),
    IoError,
>)
    ensures
        is_built(node_id, started, r),
        r is Ok <==> started is Ok,
        r matches Ok(pair) ==> pair.1.node() == node_id && pair.1.processes().node() == node_id
            && pair.1.processes().alive() == Map::<ProcessId, ProcessHandle>::empty(),
{
    match started {
        Ok(threads) => Ok((threads, Runtime::new(node_id))),
        Err(e) => Err(io_error(e)),
    }
}

/// A process that was spawned is alive until it is finished; then it is dead, it has no name left,
/// and the others are as they were.
pub proof fn spawned_processes_live_until_finished<R: MessageRouter>(
    before: Runtime<R>,
    spawned: Runtime<R>,
    context: ProcessContext,
    reason: ExitReason,
    after: Runtime<R>,
    pid: ProcessId,
    first: bool,
    last: bool,
    other: ProcessId,
    was: bool,
    still: bool,
)
    requires
        !before.processes().alive().dom().contains(context.identity()),
        other != context.identity(),
        exists|m: &mut Runtime<R>|
            *m == before && *final(m) == spawned && #[trigger] call_ensures(
                Runtime::<R>::spawn,
                (m,),
                context,
            ),
        call_ensures(ProcessContext::self_pid, (&context,), pid),
        exists|m: &mut Runtime<R>|
            *m == spawned && *final(m) == after && #[trigger] call_ensures(
                Runtime::<R>::finished,
                (m, pid, reason),
                (),
            ),
        call_ensures(ProcessTable::is_alive, (&spawned.processes(), &pid), first),
        call_ensures(ProcessTable::is_alive, (&after.processes(), &pid), last),
        call_ensures(ProcessTable::is_alive, (&before.processes(), &other), was),
        call_ensures(ProcessTable::is_alive, (&after.processes(), &other), still),
    ensures
        pid.local() == before.processes().next_local(),
        first,
        !last,
        still == was,
        after.processes().alive() == before.processes().alive(),
{
    broadcast use crate::process::types::pid_of_parts;

    processes_come_and_go(before, spawned, after, pid);
    assert(after.processes().alive().dom().contains(other)
        <==> before.processes().alive().dom().contains(other));
}

/// A runtime without a router tells a sender that a receiver is dead which its table does not
/// hold.
pub proof fn runtimes_know_their_dead<R: MessageRouter>(
    runtime: Runtime<R>,
    from: ProcessId,
    dest: ProcessId,
    payload: Term,
    r: Result<(), SendError>,
    s: Result<(), SendError>,
)
    requires
        runtime.routes_by() is None,
        !runtime.processes().alive().dom().contains(dest),
        call_ensures(Runtime::<R>::send_from, (&runtime, from, dest, payload), r),
        call_ensures(Runtime::<R>::send, (&runtime, dest, payload), s),
    ensures
        r == Err::<(), SendError>(SendError::ProcessDead(dest)),
        s == Err::<(), SendError>(SendError::ProcessDead(dest)),
{
}

/// A name that a process was given is its own: it is refused to others, and to processes that are
/// dead.
pub proof fn names_are_given_to_the_living_once<R: MessageRouter>(
    before: Runtime<R>,
    name: String,
    pid: ProcessId,
    after: Runtime<R>,
    r: Result<(), RegistryError>,
    other: ProcessId,
    again: Runtime<R>,
    s: Result<(), RegistryError>,
)
    requires
        exists|m: &mut Runtime<R>|
            *m == before && *final(m) == after && #[trigger] call_ensures(
                Runtime::<R>::register,
                (m, name, pid),
                r,
            ),
        exists|m: &mut Runtime<R>|
            *m == after && *final(m) == again && #[trigger] call_ensures(
                Runtime::<R>::register,
                (m, name, other),
                s,
            ),
    ensures
        r is Ok ==> before.processes().alive().dom().contains(pid)
            && after.processes().named()[name@] == pid,
        r is Ok ==> s is Err && again.processes().named() == after.processes().named(),
        !before.processes().alive().dom().contains(pid) ==> r == Err::<(), RegistryError>(
            RegistryError::ProcessNotFound(pid),
        ),
{
}

/// The bus of a runtime is told of each process that is spawned, and of each that ends, with the
/// reason; the runtime's node, router and bus stay.
pub proof fn buses_are_told_of_processes<R: MessageRouter>(
    before: Runtime<R>,
    spawned: Runtime<R>,
    context: ProcessContext,
    p: ProcessId,
    why: ExitReason,
    after: Runtime<R>,
)
    requires
        before.bus() is Some,
        exists|m: &mut Runtime<R>|
            *m == before && *final(m) == spawned && #[trigger] call_ensures(
                Runtime::<R>::spawn,
                (m,),
                context,
            ),
        exists|m: &mut Runtime<R>|
            *m == spawned && *final(m) == after && #[trigger] call_ensures(
                Runtime::<R>::finished,
                (m, p, why),
                (),
            ),
    ensures
        exists|t: u64| #[trigger]
            before.bus()->0.told(
                LifecycleEvent::ProcessSpawned {
                    pid: context.identity(),
                    parent: None,
                    name: None,
                    timestamp: t,
                },
            ),
        exists|t: u64| #[trigger]
            before.bus()->0.told(
                LifecycleEvent::ProcessExited { pid: p, reason: why, timestamp: t },
            ),
        after.node() == before.node(),
        after.routes_by() == before.routes_by(),
        after.bus() == before.bus(),
{
}

} // verus!
