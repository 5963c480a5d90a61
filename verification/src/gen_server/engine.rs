//! A server that is reached by messages: what it makes of each, and how its clients wait.
use crate::counter::{drawn_number, Counter};
use crate::gen_server::envelope::{
    call_envelope, call_payload, call_round_trip, cast_envelope, cast_payload, cast_round_trip,
    extract_gs_type, extract_number, extract_or_nil, field_or_nil, gs_type,
    kind_is_the_text_under_the_key, number_of,
    reply_envelope, reply_payload, reply_round_trip,
};
use crate::process::mailbox::{unbounded_pair, Mailbox, MailboxRx};
use crate::process::table::{names_without, ProcessHandle, ProcessTable};
use crate::process::{ExitReason, Message, ProcessId, RegistryError, SendError};
use crate::router::MessageRouter;
use crate::runtime::{told_of_spawn, ProcessContext, Runtime};
use crate::term::{Term, TermView};
use crate::text::str_eq;
use std::rc::Rc;
use vstd::prelude::*;

verus! {

/// What a server answers to a call.
pub enum CallReply<State> {
    Reply(Term, State),
    NoReply(State),
    Stop(String, Term, State),
}

/// What a server answers to a cast.
pub enum CastReply<State> {
    NoReply(State),
    Stop(String, State),
}

/// What a server answers to another message.
pub enum InfoReply<State> {
    NoReply(State),
    Stop(String, State),
}

/// Who waits for the reply to a call, and under which reference.
#[derive(Debug, Clone, Copy, PartialEq, Eq, Structural)]
pub struct From {
    pub pid: ProcessId,
    pub ref_id: u64,
}

/// What a server can do while it works: send casts, messages and replies as itself.
pub struct GenServerContext<R: MessageRouter> {
    pid: ProcessId,
    router: Rc<R>,
}

impl<R: MessageRouter> GenServerContext<R> {
    pub closed spec fn pid(self) -> ProcessId {
        self.pid
    }

    pub closed spec fn router(self) -> R {
        *self.router
    }

    pub fn new(pid: ProcessId, router: Rc<R>) -> (r: Self)
        ensures
            r.pid() == pid,
            r.router() == *router,
    {
        GenServerContext { pid, router }
    }

    pub fn self_pid(&self) -> (r: ProcessId)
        ensures
            r == self.pid(),
    {
        self.pid
    }

    /// Sends a cast to a server.
    pub fn cast(&self, home: &ProcessTable, dest: ProcessId, request: Term) -> (r: Result<
        (),
        SendError,
    >)
        requires
            home.wf(),
        ensures
            routed(self.router(), *home, self.pid(), dest, cast_payload(request@), r),
    {
        let payload = cast_envelope(request);
        self.router.route(home, self.pid, dest, payload)
    }

    /// Sends a message to a process.
    pub fn send_info(&self, home: &ProcessTable, dest: ProcessId, msg: Term) -> (r: Result<
        (),
        SendError,
    >)
        requires
            home.wf(),
        ensures
            routed(self.router(), *home, self.pid(), dest, msg@, r),
    {
        self.router.route(home, self.pid, dest, msg)
    }

    /// Replies to a call.
    pub fn reply(&self, home: &ProcessTable, from: &From, response: Term) -> (r: Result<
        (),
        SendError,
    >)
        requires
            home.wf(),
        ensures
            routed(
                self.router(),
                *home,
                self.pid(),
                from.pid,
                reply_payload(from.ref_id, response@),
                r,
            ),
    {
        let payload = reply_envelope(from.ref_id, response);
        self.router.route(home, self.pid, from.pid, payload)
    }
}

/// Whether `r` is what the router, given the table, answered to a payload of this content from one
/// process to another.
pub open spec fn routed<R: MessageRouter>(
    router: R,
    home: ProcessTable,
    from: ProcessId,
    to: ProcessId,
    payload: TermView,
    r: Result<(), SendError>,
) -> bool {
    exists|p: Term|
        p@ == payload && #[trigger] call_ensures(R::route, (&router, &home, from, to, p), r)
}

/// What a message is to a server.
pub enum Incoming {
    /// A call, to be decoded and handled.
    Call { from: From, request: Term },
    /// A call without a reference, to be answered with a complaint.
    BadCall { from: From },
    /// A cast, to be decoded and handled.
    Cast { request: Term },
    /// A reply that nobody waits for.
    Ignored,
    /// Another message, to be handled as it is.
    Info { payload: Term },
}

/// Whether a message with this sender and payload is this to a server. A call whose reference
/// is missing, no number or zero is a bad one; a request that is missing is nothing.
pub open spec fn is_incoming(sender: ProcessId, payload: TermView, r: Incoming) -> bool {
    let ref_id = match number_of(payload, "ref"@) {
        Some(n) => n,
        None => 0,
    };
    let kind = gs_type(payload);
    if kind == Some("call"@) {
        if ref_id == 0 {
            r matches Incoming::BadCall { from } && from == (From { pid: sender, ref_id })
        } else {
            r matches Incoming::Call { from, request } && from == (From { pid: sender, ref_id })
                && request@ == field_or_nil(payload, "req"@)
        }
    } else if kind == Some("cast"@) {
        r matches Incoming::Cast { request } && request@ == field_or_nil(payload, "req"@)
    } else if kind == Some("reply"@) {
        r is Ignored
    } else {
        r matches Incoming::Info { payload: p } && p@ == payload
    }
}

/// What a message is to a server.
pub fn receive(msg: &Message) -> (r: Incoming)
    ensures
        is_incoming(msg.sender(), msg.body()@, r),
        gs_type(msg.body()@) != Some("call"@) && gs_type(msg.body()@) != Some("cast"@) && gs_type(
            msg.body()@,
        ) != Some("reply"@) ==> r is Info && r->Info_payload@ == msg.body()@,
        r is Call || r is BadCall ==> gs_type(msg.body()@) == Some("call"@),
        r is Cast ==> gs_type(msg.body()@) == Some("cast"@),
        r is Ignored ==> gs_type(msg.body()@) == Some("reply"@),
        r is Info ==> r->Info_payload@ == msg.body()@,
{
    let payload = msg.payload();
    let (is_call, is_cast, is_reply) = match extract_gs_type(payload) {
        Some(kind) => (str_eq(kind, "call"), str_eq(kind, "cast"), str_eq(kind, "reply")),
        None => (false, false, false),
    };
    if is_call {
        let ref_id: u64 = match extract_number(payload, "ref") {
            Some(n) => n,
            None => 0,
        };
        let from = From { pid: msg.from(), ref_id };
        if ref_id == 0 {
            Incoming::BadCall { from }
        } else {
            Incoming::Call { from, request: extract_or_nil(payload, "req") }
        }
    } else if is_cast {
        Incoming::Cast { request: extract_or_nil(payload, "req") }
    } else if is_reply {
        Incoming::Ignored
    } else {
        Incoming::Info { payload: payload.clone() }
    }
}

/// What a server is told when a call has no reference.
pub fn missing_ref_reply() -> (r: Term)
    ensures
        r@ == TermView::String("bad_call: missing ref_id"@),
{
    Term::from_text("bad_call: missing ref_id")
}

/// What a client is told when its call could not be decoded.
pub fn undecodable_reply() -> (r: Term)
    ensures
        r@ == TermView::String("bad_call: could not decode message"@),
{
    Term::from_text("bad_call: could not decode message")
}

/// How a supervised server ended, where its process may have been dropped before it could say.
pub fn supervised_exit(told: Option<ExitReason>) -> (r: ExitReason)
    ensures
        match told {
            Some(reason) => r == reason,
            None => r is Abnormal && r->Abnormal_0@
                == "process dropped without sending exit reason"@,
        },
{
    match told {
        Some(reason) => reason,
        None => ExitReason::Abnormal("process dropped without sending exit reason".to_string()),
    }
}

/// Why a call got no reply.
#[derive(Debug, Clone, Copy, PartialEq, Eq, Structural)]
pub enum CallError {
    Timeout,
    ServerDead,
}

/// The message of a call error.
pub open spec fn call_error_text(e: CallError) -> Seq<char> {
    match e {
        CallError::Timeout => "call timed out"@,
        CallError::ServerDead => "server is dead"@,
    }
}

impl CallError {
    /// The message of the error.
    pub fn to_string(&self) -> (r: String)
        ensures
            r@ == call_error_text(*self),
    {
        match self {
            CallError::Timeout => "call timed out".to_string(),
            CallError::ServerDead => "server is dead".to_string(),
        }
    }
}

/// What a message is to a client that waits for the reply to the call with the reference: the
/// response, if it is that reply.
pub open spec fn response_of(payload: TermView, ref_id: u64) -> Option<TermView> {
    if gs_type(payload) == Some("reply"@) && number_of(payload, "ref"@) == Some(ref_id) {
        Some(field_or_nil(payload, "val"@))
    } else {
        None
    }
}

/// The response that a message brings to a client that waits for the reply to the call with the
/// reference.
pub fn match_reply(payload: &Term, ref_id: u64) -> (r: Option<Term>)
    ensures
        match r {
            Some(v) => response_of(payload@, ref_id) == Some(v@),
            None => response_of(payload@, ref_id) is None,
        },
{
    let is_reply = match extract_gs_type(payload) {
        Some(kind) => str_eq(kind, "reply"),
        None => false,
    };
    if !is_reply {
        return None;
    }
    match extract_number(payload, "ref") {
        Some(n) => if n == ref_id {
            Some(extract_or_nil(payload, "val"))
        } else {
            None
        },
        None => None,
    }
}

/// The number of the first call reference.
pub const FIRST_CALL_REF: u64 = 1;

/// A call that waits for its reply: its reference, and the process that stands for the client.
pub struct PendingCall {
    pub ref_id: u64,
    pub pid: ProcessId,
    pub mailbox: MailboxRx,
}

/// Begins a call: draws its reference, and puts a process for the client into the table.
pub fn begin_call(table: &mut ProcessTable, refs: &mut Counter) -> (r: PendingCall)
    requires
        old(table).wf(),
        old(table).next_local() < u64::MAX,
    ensures
        final(table).wf(),
        r.ref_id == old(refs)@,
        final(refs)@ == drawn_number(old(refs)@, 1),
        r.pid == ProcessId::of(old(table).node(), old(table).thread(), old(table).next_local()),
        final(table).next_local() == old(table).next_local() + 1,
        final(table).same_identity(*old(table)),
        final(table).named() == old(table).named(),
        final(table).alive() == old(table).alive().insert(r.pid, final(table).alive()[r.pid]),
        unbounded_pair(final(table).alive()[r.pid].mailbox(), r.mailbox),
{
    let ref_id: u64 = refs.draw();
    let pid = table.allocate_pid();
    let (tx, rx) = Mailbox::unbounded();
    table.insert(pid, ProcessHandle::new(tx));
    PendingCall { ref_id, pid, mailbox: rx }
}

/// Ends a call: takes the process for the client out of the table.
pub fn end_call(table: &mut ProcessTable, pid: ProcessId)
    requires
        old(table).wf(),
    ensures
        final(table).wf(),
        final(table).next_local() == old(table).next_local(),
        final(table).same_identity(*old(table)),
        final(table).alive() == old(table).alive().remove(pid),
        final(table).named() == names_without(old(table).named(), pid),
{
    table.remove(&pid);
}

/// What a client needs to reach a server: its process, and a router.
pub struct GenServerRef<R: MessageRouter> {
    pid: ProcessId,
    router: Rc<R>,
}

impl<R: MessageRouter> GenServerRef<R> {
    pub closed spec fn server(self) -> ProcessId {
        self.pid
    }

    pub closed spec fn router(self) -> R {
        *self.router
    }

    pub fn new(pid: ProcessId, router: Rc<R>) -> (r: Self)
        ensures
            r.server() == pid,
            r.router() == *router,
    {
        GenServerRef { pid, router }
    }

    /// The process of the server.
    pub fn pid(&self) -> (r: ProcessId)
        ensures
            r == self.server(),
    {
        self.pid
    }

    /// Sends a cast to the server, from nobody in particular.
    pub fn cast(&self, home: &ProcessTable, request: Term) -> (r: Result<(), SendError>)
        requires
            home.wf(),
        ensures
            routed(
                self.router(),
                *home,
                ProcessId::of(0, 0, 0),
                self.server(),
                cast_payload(request@),
                r,
            ),
    {
        let payload = cast_envelope(request);
        self.router.route(home, ProcessId::new(0, 0, 0), self.pid, payload)
    }

    /// Sends the request of a call that was begun, from the process that stands for the client.
    pub fn send_call(&self, home: &ProcessTable, call: &PendingCall, request: Term) -> (r: Result<
        (),
        SendError,
    >)
        requires
            home.wf(),
        ensures
            routed(
                self.router(),
                *home,
                call.pid,
                self.server(),
                call_payload(call.ref_id, request@),
                r,
            ),
    {
        let payload = call_envelope(call.ref_id, request);
        self.router.route(home, call.pid, self.pid, payload)
    }
}

impl<R: MessageRouter> Clone for GenServerRef<R> {
    fn clone(&self) -> (r: Self)
        ensures
            r == *self,
    {
        GenServerRef { pid: self.pid, router: Rc::clone(&self.router) }
    }
}

/// Whether `r` is what a runtime answered to a payload of this content, sent from outside any
/// process.
pub open spec fn sent_from_outside<R: MessageRouter>(
    runtime: Runtime<R>,
    to: ProcessId,
    payload: TermView,
    r: Result<(), SendError>,
) -> bool {
    exists|p: Term|
        p@ == payload && #[trigger] runtime.answers(
            ProcessId::of(runtime.node(), 0, 0),
            to,
            p,
            r,
        )
}

/// Sends a cast to a server from outside any process.
pub fn cast_from_runtime<R: MessageRouter>(
    runtime: &Runtime<R>,
    dest: ProcessId,
    request: Term,
) -> (r: Result<(), SendError>)
    requires
        runtime.wf(),
    ensures
        sent_from_outside(*runtime, dest, cast_payload(request@), r),
{
    let payload = cast_envelope(request);
    runtime.send(dest, payload)
}

/// Replies to a call from outside any process.
pub fn reply_from_runtime<R: MessageRouter>(
    runtime: &Runtime<R>,
    from: &From,
    response: Term,
) -> (r: Result<(), SendError>)
    requires
        runtime.wf(),
    ensures
        sent_from_outside(*runtime, from.pid, reply_payload(from.ref_id, response@), r),
{
    let payload = reply_envelope(from.ref_id, response);
    runtime.send(from.pid, payload)
}

/// A new process for a server, with a name. Where the name is taken, the process is there all
/// the same, without it.
pub fn start_named<R: MessageRouter>(runtime: &mut Runtime<R>, name: String) -> (r: (
    ProcessContext,
    Result<ProcessId, RegistryError>,
))
    requires
        old(runtime).wf(),
        old(runtime).processes().next_local() < u64::MAX,
    ensures
        final(runtime).wf(),
        final(runtime).same_set_up(*old(runtime)),
        r.0.identity() == ProcessId::of(
            old(runtime).processes().node(),
            old(runtime).processes().thread(),
            old(runtime).processes().next_local(),
        ),
        final(runtime).processes().same_identity(old(runtime).processes()),
        final(runtime).processes().next_local() == old(runtime).processes().next_local() + 1,
        final(runtime).processes().alive() == old(runtime).processes().alive().insert(
            r.0.identity(),
            final(runtime).processes().alive()[r.0.identity()],
        ),
        unbounded_pair(
            final(runtime).processes().alive()[r.0.identity()].mailbox(),
            r.0.mailbox(),
        ),
        old(runtime).bus() matches Some(bus) ==> told_of_spawn(bus, r.0.identity()),
        if old(runtime).processes().named().dom().contains(name@) {
            &&& r.1 == Err::<ProcessId, RegistryError>(RegistryError::NameAlreadyRegistered(name))
            &&& final(runtime).processes().named() == old(runtime).processes().named()
        } else {
            &&& r.1 == Ok::<ProcessId, RegistryError>(r.0.identity())
            &&& final(runtime).processes().named() == old(runtime).processes().named().insert(
                name@,
                r.0.identity(),
            )
        },
{
    let context = runtime.spawn();
    let pid = context.self_pid();
    match runtime.register(name, pid) {
        Ok(()) => (context, Ok(pid)),
        Err(e) => (context, Err(e)),
    }
}

/// A call leaves no trace in the table: once it has ended, the processes and the names are what
/// they were before it began, unless the client's process was there already.
pub proof fn calls_leave_no_trace(
    before: ProcessTable,
    begun: ProcessTable,
    ended: ProcessTable,
    pid: ProcessId,
)
    requires
        before.wf(),
        !before.alive().dom().contains(pid),
        begun.alive() == before.alive().insert(pid, begun.alive()[pid]),
        begun.named() == before.named(),
        ended.alive() == begun.alive().remove(pid),
        ended.named() == names_without(begun.named(), pid),
    ensures
        ended.alive() == before.alive(),
        ended.named() == before.named(),
{
    assert(ended.alive() =~= before.alive());
    assert forall|n: Seq<char>| before.named().dom().contains(n) implies before.named()[n]
        != pid by {
        crate::process::table::names_are_of_the_living(before, n);
    }
    assert(ended.named() =~= before.named());
}

/// A call reaches its server as a call with the same sender, reference and request, unless its
/// reference is zero.
pub proof fn calls_arrive(sender: ProcessId, ref_id: u64, request: TermView, r: Incoming)
    requires
        is_incoming(sender, call_payload(ref_id, request), r),
        ref_id != 0,
    ensures
        r is Call,
        r->Call_from == (From { pid: sender, ref_id }),
        r->Call_request@ == request,
{
    call_round_trip(ref_id, request);
}

/// A cast reaches its server as a cast with the same request.
pub proof fn casts_arrive(sender: ProcessId, request: TermView, r: Incoming)
    requires
        is_incoming(sender, cast_payload(request), r),
    ensures
        r is Cast,
        r->Cast_request@ == request,
{
    cast_round_trip(request);
}

/// The reply to a call brings its response to the client that waits with the same reference,
/// and nothing to one that waits with another.
pub proof fn replies_arrive(ref_id: u64, response: TermView, waiting: u64)
    ensures
        response_of(reply_payload(ref_id, response), waiting) == (if waiting == ref_id {
            Some(response)
        } else {
            None::<TermView>
        }),
{
    reply_round_trip(ref_id, response);
}

/// A reply that reaches a server is ignored.
pub proof fn stray_replies_are_ignored(
    sender: ProcessId,
    ref_id: u64,
    response: TermView,
    r: Incoming,
)
    requires
        is_incoming(sender, reply_payload(ref_id, response), r),
    ensures
        r is Ignored,
{
    reply_round_trip(ref_id, response);
}

/// A message that is neither a call, a cast nor a reply reaches a server as it is: whatever its
/// payload, a mapping or anything else.
pub proof fn other_messages_arrive_as_they_are(sender: ProcessId, payload: TermView, r: Incoming)
    requires
        is_incoming(sender, payload, r),
        gs_type(payload) != Some("call"@),
        gs_type(payload) != Some("cast"@),
        gs_type(payload) != Some("reply"@),
    ensures
        r is Info,
        r->Info_payload@ == payload,
{
}

/// A payload that does not have the key `$gs` reaches a server as it is.
pub proof fn plain_messages_arrive_as_they_are(sender: ProcessId, payload: TermView, r: Incoming)
    requires
        is_incoming(sender, payload, r),
        payload matches TermView::Mapping(pairs) ==> forall|j: int|
            0 <= j < pairs.len() ==> (#[trigger] pairs[j]).0 != TermView::String("$gs"@),
    ensures
        r is Info,
        r->Info_payload@ == payload,
{
    match payload {
        TermView::Mapping(pairs) => {
            kind_is_the_text_under_the_key(payload, pairs, 0);
        },
        _ => {},
    }
}

/// A call without a reference, with one that is no number, or with zero for one, is a bad call of
/// its sender.
pub proof fn calls_without_reference_are_bad(sender: ProcessId, payload: TermView, r: Incoming)
    requires
        is_incoming(sender, payload, r),
        gs_type(payload) == Some("call"@),
        number_of(payload, "ref"@) is None || number_of(payload, "ref"@) == Some(0u64),
    ensures
        r is BadCall,
        r->BadCall_from == (From { pid: sender, ref_id: 0 }),
{
}

/// A message that is no reply, or that replies to another call, is none to a client.
pub proof fn only_its_reply_is_for_a_client(payload: TermView, ref_id: u64)
    ensures
        gs_type(payload) != Some("reply"@) ==> response_of(payload, ref_id) is None,
        number_of(payload, "ref"@) != Some(ref_id) ==> response_of(payload, ref_id) is None,
        gs_type(payload) == Some("reply"@) && number_of(payload, "ref"@) == Some(ref_id)
            ==> response_of(payload, ref_id) is Some,
{
}

} // verus!
