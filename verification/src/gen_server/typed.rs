//! A server that is reached by typed channels: which of them it serves, and how its clients
//! wait.
use crate::process::mailbox::{unbounded_pair, Mailbox, MailboxRx};
use crate::process::table::{ProcessHandle, ProcessTable};
use crate::process::{ProcessId, SendError};
use crate::router::MessageRouter;
use crate::term::Term;
use std::sync::Arc;
use vstd::prelude::*;

verus! {

/// Why a call got no reply.
#[derive(Debug, Clone, Copy, PartialEq, Eq, Structural)]
pub enum CallError {
    Timeout,
    ServerDead,
}

/// The message of a call error.
pub open spec fn call_error_text(e: CallError) -> Seq<char> {
    match e {
        CallError::Timeout => "call timeout: server did not respond in time"@,
        CallError::ServerDead => "server dead: channel closed"@,
    }
}

impl CallError {
    /// The message of the error.
    pub fn to_string(&self) -> (r: String)
        ensures
            r@ == call_error_text(*self),
    {
        match self {
            CallError::Timeout => "call timeout: server did not respond in time".to_string(),
            CallError::ServerDead => "server dead: channel closed".to_string(),
        }
    }
}

/// What a server can do while it works.
pub struct GenServerContext<R: MessageRouter> {
    pid: ProcessId,
    router: Option<Arc<R>>,
}

impl<R: MessageRouter> GenServerContext<R> {
    pub closed spec fn pid(self) -> ProcessId {
        self.pid
    }

    pub closed spec fn router(self) -> Option<R> {
        match self.router {
            Some(r) => Some(*r),
            None => None,
        }
    }

    /// The context of a server that cannot send.
    pub fn new(pid: ProcessId) -> (r: Self)
        ensures
            r.pid() == pid,
            r.router() is None,
    {
        Self { pid, router: None }
    }

    /// The context of a server that sends through a router.
    pub fn with_router(pid: ProcessId, router: Arc<R>) -> (r: Self)
        ensures
            r.pid() == pid,
            r.router() == Some(*router),
    {
        Self { pid, router: Some(router) }
    }

    pub fn self_pid(&self) -> (r: ProcessId)
        ensures
            r == self.pid(),
    {
        self.pid
    }

    /// Sends a message to a process. Without a router, every process is dead.
    pub fn send(&self, home: &ProcessTable, dest: ProcessId, payload: Term) -> (r: Result<
        (),
        SendError,
    >)
        requires
            home.wf(),
        ensures
            match self.router() {
                Some(router) => call_ensures(
                    R::route,
                    (&router, home, self.pid(), dest, payload),
                    r,
                ),
                None => r == Err::<(), SendError>(SendError::ProcessDead(dest)),
            },
    {
        match &self.router {
            Some(router) => router.route(home, self.pid, dest, payload),
            None => Err(SendError::ProcessDead(dest)),
        }
    }
}

/// What a channel has: nothing yet, an item, or no sender left.
pub enum Channel<T> {
    Empty,
    Item(T),
    Closed,
}

/// What a server does next.
pub enum TypedEvent<C, D, M> {
    Wait,
    Call(C),
    Cast(D),
    Info(M),
    /// It ends normally.
    Stop,
}

/// What a server does next, given what its channels have: calls come before casts, and casts
/// before other messages; a channel without senders that comes first ends the server.
pub open spec fn typed_event<C, D, M>(
    call: Channel<C>,
    cast: Channel<D>,
    info: Channel<M>,
) -> TypedEvent<C, D, M> {
    match call {
        Channel::Item(c) => TypedEvent::Call(c),
        Channel::Closed => TypedEvent::Stop,
        Channel::Empty => match cast {
            Channel::Item(d) => TypedEvent::Cast(d),
            Channel::Closed => TypedEvent::Stop,
            Channel::Empty => match info {
                Channel::Item(m) => TypedEvent::Info(m),
                Channel::Closed => TypedEvent::Stop,
                Channel::Empty => TypedEvent::Wait,
            },
        },
    }
}

/// What a server does next, given what its channels have.
pub fn next_event<C, D, M>(call: Channel<C>, cast: Channel<D>, info: Channel<M>) -> (r: TypedEvent<
    C,
    D,
    M,
>)
    ensures
        r == typed_event(call, cast, info),
{
    match call {
        Channel::Item(c) => {
            return TypedEvent::Call(c);
        },
        Channel::Closed => {
            return TypedEvent::Stop;
        },
        Channel::Empty => {},
    }
    match cast {
        Channel::Item(d) => {
            return TypedEvent::Cast(d);
        },
        Channel::Closed => {
            return TypedEvent::Stop;
        },
        Channel::Empty => {},
    }
    match info {
        Channel::Item(m) => TypedEvent::Info(m),
        Channel::Closed => TypedEvent::Stop,
        Channel::Empty => TypedEvent::Wait,
    }
}

/// Where a server stands.
#[derive(Debug, Clone, Copy, PartialEq, Eq, Structural)]
pub enum TypedPhase {
    /// Its initialisation runs.
    Starting,
    /// It looks at its channels.
    Serving,
    /// Its handler works.
    Handling,
    /// Its clean-up runs.
    Terminating,
    /// It has ended.
    Ended,
}

/// What happened to a server.
pub enum TypedHappening<C, D, M> {
    /// Its initialisation succeeded, or failed.
    Started(bool),
    /// This is what its channels have.
    Looked { call: Channel<C>, cast: Channel<D>, info: Channel<M> },
    Handled,
    Terminated,
    /// What ran of it panicked.
    Panicked,
}

/// What a server has to do.
pub enum TypedAction<C, D, M> {
    /// Wait until one of the channels has something, and look at them.
    Look,
    /// Handle a call, and hand its reply to the client.
    HandleCall(C),
    HandleCast(D),
    HandleInfo(M),
    Terminate,
    /// Take its process out of the table.
    Leave,
}

/// Whether something can happen in a phase.
pub open spec fn typed_can_happen<C, D, M>(
    phase: TypedPhase,
    event: TypedHappening<C, D, M>,
) -> bool {
    match event {
        TypedHappening::Started(_) => phase == TypedPhase::Starting,
        TypedHappening::Looked { .. } => phase == TypedPhase::Serving,
        TypedHappening::Handled => phase == TypedPhase::Handling,
        TypedHappening::Terminated => phase == TypedPhase::Terminating,
        TypedHappening::Panicked => phase != TypedPhase::Ended,
    }
}

/// What a happening leads to: a server that could not start, was cleaned up or panicked leaves
/// the table; after a handler it looks at its channels again.
pub open spec fn typed_next<C, D, M>(event: TypedHappening<C, D, M>) -> (
    TypedPhase,
    TypedAction<C, D, M>,
) {
    match event {
        TypedHappening::Started(true) | TypedHappening::Handled => (
            TypedPhase::Serving,
            TypedAction::Look,
        ),
        TypedHappening::Looked { call, cast, info } => match typed_event(call, cast, info) {
            TypedEvent::Wait => (TypedPhase::Serving, TypedAction::Look),
            TypedEvent::Call(c) => (TypedPhase::Handling, TypedAction::HandleCall(c)),
            TypedEvent::Cast(d) => (TypedPhase::Handling, TypedAction::HandleCast(d)),
            TypedEvent::Info(m) => (TypedPhase::Handling, TypedAction::HandleInfo(m)),
            TypedEvent::Stop => (TypedPhase::Terminating, TypedAction::Terminate),
        },
        TypedHappening::Started(false) | TypedHappening::Terminated | TypedHappening::Panicked => (
            TypedPhase::Ended,
            TypedAction::Leave,
        ),
    }
}

/// What a happening leads to. A server begins in the phase `Starting`.
pub fn typed_step<C, D, M>(phase: TypedPhase, event: TypedHappening<C, D, M>) -> (r: (
    TypedPhase,
    TypedAction<C, D, M>,
))
    requires
        typed_can_happen(phase, event),
    ensures
        r == typed_next(event),
{
    match event {
        TypedHappening::Started(ok) => if ok {
            (TypedPhase::Serving, TypedAction::Look)
        } else {
            (TypedPhase::Ended, TypedAction::Leave)
        },
        TypedHappening::Looked { call, cast, info } => match next_event(call, cast, info) {
            TypedEvent::Wait => (TypedPhase::Serving, TypedAction::Look),
            TypedEvent::Call(c) => (TypedPhase::Handling, TypedAction::HandleCall(c)),
            TypedEvent::Cast(d) => (TypedPhase::Handling, TypedAction::HandleCast(d)),
            TypedEvent::Info(m) => (TypedPhase::Handling, TypedAction::HandleInfo(m)),
            TypedEvent::Stop => (TypedPhase::Terminating, TypedAction::Terminate),
        },
        TypedHappening::Handled => (TypedPhase::Serving, TypedAction::Look),
        TypedHappening::Terminated => (TypedPhase::Ended, TypedAction::Leave),
        TypedHappening::Panicked => (TypedPhase::Ended, TypedAction::Leave),
    }
}

/// A server leaves the table when it ends, and only then.
pub proof fn servers_leave_when_they_end<C, D, M>(
    phase: TypedPhase,
    event: TypedHappening<C, D, M>,
)
    requires
        typed_can_happen(phase, event),
    ensures
        typed_next(event).0 == TypedPhase::Ended <==> typed_next(event).1 is Leave,
{
}

/// A new process for a server, with an unbounded mailbox for the messages that are neither calls
/// nor casts.
pub fn open_server(table: &mut ProcessTable) -> (r: (ProcessId, MailboxRx))
    requires
        old(table).wf(),
        old(table).next_local() < u64::MAX,
    ensures
        final(table).wf(),
        r.0 == ProcessId::of(old(table).node(), old(table).thread(), old(table).next_local()),
        r.1.inner is Unbounded,
        final(table).next_local() == old(table).next_local() + 1,
        final(table).same_identity(*old(table)),
        final(table).named() == old(table).named(),
        final(table).alive() == old(table).alive().insert(r.0, final(table).alive()[r.0]),
        unbounded_pair(final(table).alive()[r.0].mailbox(), r.1),
{
    let pid = table.allocate_pid();
    let (tx, rx) = Mailbox::unbounded();
    table.insert(pid, ProcessHandle::new(tx));
    (pid, rx)
}

/// How the wait for a reply ended.
pub enum TypedWait<T> {
    /// The server took no more calls.
    NotSent,
    /// The reply came.
    Replied(T),
    /// The server dropped the call.
    Dropped,
    /// The time was up.
    TimedOut,
}

/// The result of a call, for each way that the wait for its reply can end.
pub fn typed_call_result<T>(wait: TypedWait<T>) -> (r: Result<T, CallError>)
    ensures
        r == (match wait {
            TypedWait::Replied(v) => Ok::<T, CallError>(v),
            TypedWait::TimedOut => Err(CallError::Timeout),
            _ => Err(CallError::ServerDead),
        }),
{
    match wait {
        TypedWait::Replied(v) => Ok(v),
        TypedWait::TimedOut => Err(CallError::Timeout),
        _ => Err(CallError::ServerDead),
    }
}

/// The result of a cast, given whether the server's channel took it.
pub fn typed_cast_result(pid: ProcessId, taken: bool) -> (r: Result<(), SendError>)
    ensures
        r == (if taken {
            Ok::<(), SendError>(())
        } else {
            Err(SendError::ProcessDead(pid))
        }),
{
    if taken {
        Ok(())
    } else {
        Err(SendError::ProcessDead(pid))
    }
}

/// How many calls may wait for a server at a time.
pub const CALL_QUEUE_SIZE: usize = 64;

/// Calls are served first: while one is there, neither casts nor other messages are looked at.
pub proof fn calls_come_first<C, D, M>(c: C, cast: Channel<D>, info: Channel<M>)
    ensures
        typed_event(Channel::Item(c), cast, info) == TypedEvent::<C, D, M>::Call(c),
{
}

/// What a server does next tells what its channels have: it takes what the first channel in order
/// that is not empty has, it waits only where all are empty, and it stops only because that
/// channel has no sender left.
pub proof fn channels_are_served_in_order<C, D, M>(
    call: Channel<C>,
    cast: Channel<D>,
    info: Channel<M>,
)
    ensures
        typed_event(call, cast, info) is Wait <==> call is Empty && cast is Empty && info is Empty,
        forall|c: C| typed_event(call, cast, info) == TypedEvent::<C, D, M>::Call(c) <==> call
            == Channel::Item(c),
        forall|d: D| typed_event(call, cast, info) == TypedEvent::<C, D, M>::Cast(d) <==> call
            is Empty && cast == Channel::Item(d),
        forall|m: M| typed_event(call, cast, info) == TypedEvent::<C, D, M>::Info(m) <==> call
            is Empty && cast is Empty && info == Channel::Item(m),
        typed_event(call, cast, info) is Stop ==> call is Closed || (call is Empty && (cast is Closed
            || (cast is Empty && info is Closed))),
        call is Closed ==> typed_event(call, cast, info) is Stop,
        call is Empty && cast is Closed ==> typed_event(call, cast, info) is Stop,
{
}

/// A server looks at its channels once it has started and after each thing that it handled, is
/// given just what it found there, and cleans up before it ends, unless it could not start or
/// panicked.
pub proof fn typed_servers_go_on<C, D, M>(
    phase: TypedPhase,
    event: TypedHappening<C, D, M>,
    c: C,
    d: D,
    m: M,
)
    requires
        typed_can_happen(phase, event),
    ensures
        typed_next(event).1 is Look <==> typed_next(event).0 == TypedPhase::Serving,
        typed_next(event).1 is Terminate <==> typed_next(event).0 == TypedPhase::Terminating,
        event is Handled ==> typed_next(event).1 is Look,
        event == TypedHappening::<C, D, M>::Started(true) ==> typed_next(event).1 is Look,
        typed_next(event).1 is Leave <==> event == TypedHappening::<C, D, M>::Started(false)
            || event is Terminated || event is Panicked,
        typed_next(event).1 == TypedAction::<C, D, M>::HandleCall(c) <==> (
        event matches TypedHappening::Looked { call, .. } && call == Channel::Item(c)),
        typed_next(event).1 == TypedAction::<C, D, M>::HandleCast(d) <==> (
        event matches TypedHappening::Looked { call, cast, .. } && call is Empty && cast
            == Channel::Item(d)),
        typed_next(event).1 == TypedAction::<C, D, M>::HandleInfo(m) <==> (
        event matches TypedHappening::Looked { call, cast, info } && call is Empty && cast is Empty
            && info == Channel::Item(m)),
{
}

} // verus!
