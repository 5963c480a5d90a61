//! What the C interface does, on plain values: identities, messages, codes and names.
use crate::assoc::Assoc;
use crate::process::mailbox::unbounded_pair;
use crate::process::{ProcessId, SendError};
use crate::router::MessageRouter;
use crate::runtime::{told_of_spawn, ProcessContext, Runtime};
use crate::term::Term;
use crate::time::Duration;
use vstd::prelude::*;
use vstd::slice::slice_to_vec;
use vstd::utf8::{decode_utf8, valid_utf8};

verus! {

pub const REBAR_OK: i32 = 0;

pub const REBAR_ERR_NULL_PTR: i32 = -1;

pub const REBAR_ERR_SEND_FAILED: i32 = -2;

pub const REBAR_ERR_NOT_FOUND: i32 = -3;

pub const REBAR_ERR_INVALID_NAME: i32 = -4;

/// The identity of a process with its three numbers in the open.
#[derive(Debug, Clone, Copy, PartialEq, Eq, Structural)]
pub struct RebarPid {
    pub node_id: u64,
    pub thread_id: u16,
    pub local_id: u64,
}

impl RebarPid {
    /// The process that the numbers stand for.
    pub open spec fn process(self) -> ProcessId {
        ProcessId::of(self.node_id, self.thread_id, self.local_id)
    }

    pub fn to_process_id(self) -> (r: ProcessId)
        ensures
            r == self.process(),
    {
        ProcessId::new(self.node_id, self.thread_id, self.local_id)
    }

    pub fn from_process_id(pid: ProcessId) -> (r: Self)
        ensures
            r.node_id == pid.node(),
            r.thread_id == pid.thread(),
            r.local_id == pid.local(),
            r.process() == pid,
    {
        let r = Self {
            node_id: pid.node_id(),
            thread_id: pid.thread_id(),
            local_id: pid.local_id(),
        };
        proof {
            crate::process::types::pid_of_parts(r.node_id, r.thread_id, r.local_id);
            crate::process::types::pid_is_its_parts(r.process(), pid);
        }
        r
    }
}

/// The numbers of a process and the process that numbers stand for are each other's inverse.
pub proof fn pid_round_trip(a: RebarPid, b: RebarPid)
    ensures
        a.process() == b.process() <==> a == b,
        a.process().node() == a.node_id,
        a.process().thread() == a.thread_id,
        a.process().local() == a.local_id,
{
    crate::process::types::pid_of_parts(a.node_id, a.thread_id, a.local_id);
    crate::process::types::pid_of_parts(b.node_id, b.thread_id, b.local_id);
}

/// A message of raw bytes.
pub struct RebarMsg {
    data: Vec<u8>,
}

impl RebarMsg {
    pub closed spec fn view(&self) -> Seq<u8> {
        self.data@
    }

    /// The payload that the message is sent with: its bytes.
    pub fn payload(&self) -> (r: Term)
        ensures
            r is Binary,
            r->Binary_0@ == self@,
    {
        Term::Binary(self.data.clone())
    }

    /// The bytes.
    pub fn data(&self) -> (r: &Vec<u8>)
        ensures
            r@ == self@,
    {
        &self.data
    }
}

/// A message of the bytes at a place; without a place only an empty one.
pub fn rebar_msg_create(data: Option<&[u8]>, len: usize) -> (r: Option<RebarMsg>)
    requires
        data matches Some(bytes) ==> bytes@.len() == len,
    ensures
        match data {
            Some(bytes) => r is Some && r->0@ == bytes@,
            None => if len == 0 {
                r is Some && r->0@ == Seq::<u8>::empty()
            } else {
                r is None
            },
        },
{
    match data {
        Some(bytes) => Some(RebarMsg { data: slice_to_vec(bytes) }),
        None => if len == 0 {
            Some(RebarMsg { data: Vec::new() })
        } else {
            None
        },
    }
}

/// The bytes of a message, if there is one.
pub fn rebar_msg_data(msg: Option<&RebarMsg>) -> (r: Option<&Vec<u8>>)
    ensures
        match msg {
            Some(m) => r is Some && r->0@ == m@,
            None => r is None,
        },
{
    match msg {
        Some(m) => Some(m.data()),
        None => None,
    }
}

/// The number of bytes of a message; zero if there is none.
pub fn rebar_msg_len(msg: Option<&RebarMsg>) -> (r: usize)
    ensures
        r == (match msg {
            Some(m) => m@.len(),
            None => 0,
        }),
{
    match msg {
        Some(m) => m.data.len(),
        None => 0,
    }
}

/// `String::from_utf8`. Claimed: bytes that are UTF-8 give the text that they encode, and other
/// bytes give none.
#[verifier::external_body]
fn text_of(bytes: Vec<u8>) -> (r: Option<String>)
    ensures
        match r {
            Some(s) => valid_utf8(bytes@) && s@ == decode_utf8(bytes@),
            None => !valid_utf8(bytes@),
        },
{
    String::from_utf8(bytes).ok()
}

/// What a runtime for C holds besides its thread: its node, and names for processes.
pub struct RebarRuntime {
    node_id: u64,
    registry: Assoc<String, ProcessId>,
}

/// The code for a name: that it is missing, or that it is no text.
pub open spec fn name_code(name: Option<&[u8]>) -> int {
    match name {
        None => REBAR_ERR_NULL_PTR as int,
        Some(bytes) => if valid_utf8(bytes@) {
            REBAR_OK as int
        } else {
            REBAR_ERR_INVALID_NAME as int
        },
    }
}

impl RebarRuntime {
    pub closed spec fn node(self) -> u64 {
        self.node_id
    }

    /// The processes that names stand for.
    pub closed spec fn named(self) -> Map<Seq<char>, ProcessId> {
        self.registry@
    }

    /// Validity: no name is listed twice.
    pub closed spec fn wf(self) -> bool {
        self.registry.wf()
    }

    pub fn new(node_id: u64) -> (r: Self)
        ensures
            r.wf(),
            r.node() == node_id,
            r.named() == Map::<Seq<char>, ProcessId>::empty(),
    {
        Self { node_id, registry: Assoc::new() }
    }

    /// The number of the node.
    pub fn node_id(&self) -> (r: u64)
        ensures
            r == self.node(),
    {
        self.node_id
    }

    /// Gives a process a name, in place of the process that had it.
    pub fn rebar_register(&mut self, name: Option<&[u8]>, pid: RebarPid) -> (r: i32)
        requires
            old(self).wf(),
        ensures
            final(self).wf(),
            final(self).node() == old(self).node(),
            r == name_code(name),
            final(self).named() == (if r == REBAR_OK {
                old(self).named().insert(decode_utf8(name->0@), pid.process())
            } else {
                old(self).named()
            }),
    {
        match name {
            None => REBAR_ERR_NULL_PTR,
            Some(bytes) => match text_of(slice_to_vec(bytes)) {
                None => REBAR_ERR_INVALID_NAME,
                Some(text) => {
                    self.registry.insert(text, pid.to_process_id());
                    REBAR_OK
                },
            },
        }
    }

    /// The process that a name stands for, if there is a place for the answer.
    pub fn rebar_whereis(&self, name: Option<&[u8]>, has_out: bool) -> (r: Result<RebarPid, i32>)
        requires
            self.wf(),
        ensures
            match r {
                Ok(pid) => has_out && name_code(name) == REBAR_OK && self.named().dom().contains(
                    decode_utf8(name->0@),
                ) && pid.process() == self.named()[decode_utf8(name->0@)],
                Err(code) => code == (if !has_out {
                    REBAR_ERR_NULL_PTR as int
                } else if name_code(name) != REBAR_OK {
                    name_code(name)
                } else {
                    REBAR_ERR_NOT_FOUND as int
                }) && (has_out && name_code(name) == REBAR_OK
                    ==> !self.named().dom().contains(decode_utf8(name->0@))),
            },
    {
        if !has_out {
            return Err(REBAR_ERR_NULL_PTR);
        }
        match name {
            None => Err(REBAR_ERR_NULL_PTR),
            Some(bytes) => match text_of(slice_to_vec(bytes)) {
                None => Err(REBAR_ERR_INVALID_NAME),
                Some(text) => match self.registry.get(&text) {
                    Some(pid) => Ok(RebarPid::from_process_id(*pid)),
                    None => Err(REBAR_ERR_NOT_FOUND),
                },
            },
        }
    }

    /// What to send where, for a message to a named process, or a code.
    pub fn rebar_send_named(&self, name: Option<&[u8]>, msg: Option<&RebarMsg>) -> (r: Result<
        (ProcessId, Term),
        i32,
    >)
        requires
            self.wf(),
        ensures
            match r {
                Ok((pid, payload)) => {
                    &&& msg is Some
                    &&& name_code(name) == REBAR_OK
                    &&& self.named().dom().contains(decode_utf8(name->0@))
                    &&& pid == self.named()[decode_utf8(name->0@)]
                    &&& payload is Binary
                    &&& payload->Binary_0@ == msg->0@
                },
                Err(code) => code == (if msg is None {
                    REBAR_ERR_NULL_PTR as int
                } else if name_code(name) != REBAR_OK {
                    name_code(name)
                } else {
                    REBAR_ERR_NOT_FOUND as int
                }) && (msg is Some && name_code(name) == REBAR_OK
                    ==> !self.named().dom().contains(decode_utf8(name->0@))),
            },
    {
        match msg {
            None => Err(REBAR_ERR_NULL_PTR),
            Some(m) => match self.rebar_whereis(name, true) {
                Ok(pid) => Ok((pid.to_process_id(), m.payload())),
                Err(code) => Err(code),
            },
        }
    }
}

/// What the C side asks of the runtime's thread.
pub enum FfiCommand {
    /// A new process, which calls back.
    Spawn,
    Send { dest: ProcessId, payload: Term },
    Shutdown,
}

/// What the runtime's thread finds when it looks for commands.
pub enum CommandPoll {
    Command(FfiCommand),
    /// There is none yet.
    Empty,
    /// Nobody can send one any more.
    Disconnected,
}

/// What the runtime's thread does then.
pub enum CommandStep {
    /// Run the call back of this new process, and answer with its identity.
    Spawned(ProcessContext),
    /// Answer with what came of the send.
    Sent(Result<(), SendError>),
    /// Let the processes work for so long, and look again.
    Idle(Duration),
    /// End.
    Stop,
}

/// What the runtime's thread does with what it found: it spawns, sends, waits for a tenth of a
/// millisecond, or ends where it is told to or nobody is left to tell it.
pub fn serve_command<R: MessageRouter>(runtime: &mut Runtime<R>, poll: CommandPoll) -> (r:
    CommandStep)
    requires
        old(runtime).wf(),
        poll matches CommandPoll::Command(FfiCommand::Spawn)
            ==> old(runtime).processes().next_local() < u64::MAX,
    ensures
        final(runtime).wf(),
        final(runtime).same_set_up(*old(runtime)),
        match poll {
            CommandPoll::Command(FfiCommand::Spawn) => r matches CommandStep::Spawned(context) && {
                &&& context.identity() == ProcessId::of(
                    old(runtime).processes().node(),
                    old(runtime).processes().thread(),
                    old(runtime).processes().next_local(),
                )
                &&& final(runtime).processes().same_identity(old(runtime).processes())
                &&& final(runtime).processes().next_local() == old(runtime).processes().next_local() + 1
                &&& final(runtime).processes().named() == old(runtime).processes().named()
                &&& final(runtime).processes().alive() == old(runtime).processes().alive().insert(
                    context.identity(),
                    final(runtime).processes().alive()[context.identity()],
                )
                &&& unbounded_pair(
                    final(runtime).processes().alive()[context.identity()].mailbox(),
                    context.mailbox(),
                )
                &&& old(runtime).bus() matches Some(bus) ==> told_of_spawn(bus, context.identity())
            },
            CommandPoll::Command(FfiCommand::Send { dest, payload }) => {
                &&& *final(runtime) == *old(runtime)
                &&& r matches CommandStep::Sent(answer)
                &&& old(runtime).answers(
                    ProcessId::of(old(runtime).node(), 0, 0),
                    dest,
                    payload,
                    answer,
                )
            },
            CommandPoll::Empty => {
                &&& *final(runtime) == *old(runtime)
                &&& r matches CommandStep::Idle(d)
                &&& d@ == 100_000
            },
            _ => *final(runtime) == *old(runtime) && r is Stop,
        },
{
    match poll {
        CommandPoll::Command(FfiCommand::Spawn) => CommandStep::Spawned(runtime.spawn()),
        CommandPoll::Command(FfiCommand::Send { dest, payload }) => CommandStep::Sent(
            runtime.send(dest, payload),
        ),
        CommandPoll::Command(FfiCommand::Shutdown) => CommandStep::Stop,
        CommandPoll::Empty => CommandStep::Idle(Duration::from_micros(100)),
        CommandPoll::Disconnected => CommandStep::Stop,
    }
}

/// What to send where, for a message to a process, or a code.
pub fn rebar_send(dest: RebarPid, msg: Option<&RebarMsg>) -> (r: Result<(ProcessId, Term), i32>)
    ensures
        match msg {
            Some(m) => r is Ok && r->Ok_0.0 == dest.process() && r->Ok_0.1 is Binary
                && r->Ok_0.1->Binary_0@ == m@,
            None => r == Err::<(ProcessId, Term), i32>(REBAR_ERR_NULL_PTR),
        },
{
    match msg {
        Some(m) => Ok((dest.to_process_id(), m.payload())),
        None => Err(REBAR_ERR_NULL_PTR),
    }
}

/// The code for the answer of the runtime's thread to a send: it must answer, and without an
/// error.
pub fn send_code(answer: Option<Result<(), SendError>>) -> (r: i32)
    ensures
        r == (match answer {
            Some(Ok(())) => REBAR_OK,
            _ => REBAR_ERR_SEND_FAILED,
        }),
{
    match answer {
        Some(Ok(())) => REBAR_OK,
        _ => REBAR_ERR_SEND_FAILED,
    }
}

/// The identity of a new process, or a code: something is missing, or the runtime's thread does
/// not answer.
pub fn rebar_spawn(has_callback: bool, has_out: bool, answer: Option<ProcessId>) -> (r: Result<
    RebarPid,
    i32,
>)
    ensures
        match r {
            Ok(pid) => has_callback && has_out && answer == Some(pid.process()),
            Err(code) => if !has_callback || !has_out {
                code == REBAR_ERR_NULL_PTR
            } else {
                code == REBAR_ERR_SEND_FAILED && answer is None
            },
        },
{
    if !has_out || !has_callback {
        return Err(REBAR_ERR_NULL_PTR);
    }
    match answer {
        Some(pid) => Ok(RebarPid::from_process_id(pid)),
        None => Err(REBAR_ERR_SEND_FAILED),
    }
}

/// A name is refused where it is missing or no text, each with its own code, and is else taken.
pub proof fn name_codes_say_what_is_wrong(name: Option<&[u8]>)
    ensures
        name is None ==> name_code(name) == -1,
        name matches Some(bytes) ==> (valid_utf8(bytes@) <==> name_code(name) == 0),
        name matches Some(bytes) ==> (!valid_utf8(bytes@) <==> name_code(name) == -4),
{
}

/// A name that a process was given stands for the process, and a name that nobody was given is
/// not found.
pub proof fn names_are_found_once_given(
    runtime: RebarRuntime,
    name: &[u8],
    r: Result<RebarPid, i32>,
)
    requires
        valid_utf8(name@),
        call_ensures(RebarRuntime::rebar_whereis, (&runtime, Some(name), true), r),
    ensures
        runtime.named().dom().contains(decode_utf8(name@)) ==> (r matches Ok(pid) && pid.process()
            == runtime.named()[decode_utf8(name@)]),
        !runtime.named().dom().contains(decode_utf8(name@)) ==> r is Err && r->Err_0 == -3,
{
}

/// A process that was given a name is found by it, and is sent to by it; a later process takes the
/// name over.
pub proof fn given_names_are_found(
    before: RebarRuntime,
    name: &[u8],
    pid: RebarPid,
    after: RebarRuntime,
    code: i32,
    found: Result<RebarPid, i32>,
    msg: RebarMsg,
    sent: Result<(ProcessId, Term), i32>,
)
    requires
        valid_utf8(name@),
        exists|m: &mut RebarRuntime|
            *m == before && *final(m) == after && #[trigger] call_ensures(
                RebarRuntime::rebar_register,
                (m, Some(name), pid),
                code,
            ),
        call_ensures(RebarRuntime::rebar_whereis, (&after, Some(name), true), found),
        call_ensures(RebarRuntime::rebar_send_named, (&after, Some(name), Some(&msg)), sent),
    ensures
        code == 0,
        found == Ok::<RebarPid, i32>(pid),
        sent matches Ok((to, payload)) && to == pid.process() && (payload matches Term::Binary(bytes)
            && bytes@ == msg@),
{
    if found is Ok {
        pid_round_trip(found->Ok_0, pid);
    }
}

/// The numbers of a process and the process are each other's.
pub proof fn numbers_stand_for_their_process(
    pid: RebarPid,
    p: ProcessId,
    back: RebarPid,
)
    requires
        call_ensures(RebarPid::to_process_id, (pid,), p),
        call_ensures(RebarPid::from_process_id, (p,), back),
    ensures
        back == pid,
{
    pid_round_trip(back, pid);
}

/// A message holds the bytes that it was made of, and is sent as them.
pub proof fn messages_hold_their_bytes(
    bytes: &[u8],
    r: Option<RebarMsg>,
    data: Option<&Vec<u8>>,
    n: usize,
    dest: RebarPid,
    sent: Result<(ProcessId, Term), i32>,
)
    requires
        call_ensures(rebar_msg_create, (Some(bytes), bytes@.len() as usize), r),
        r is Some,
        call_ensures(rebar_msg_data, (Some(&r->0),), data),
        call_ensures(rebar_msg_len, (Some(&r->0),), n),
        call_ensures(rebar_send, (dest, Some(&r->0)), sent),
    ensures
        data is Some,
        data->0@ == bytes@,
        n == bytes@.len(),
        sent matches Ok((to, payload)) && to == dest.process() && (payload matches Term::Binary(b) && b@
            == bytes@),
{
}

/// A send that was answered without an error succeeded, and no other.
pub proof fn codes_tell_how_a_send_went(
    answer: Option<Result<(), SendError>>,
    r: i32,
    callback: bool,
    out: bool,
    pid: Option<ProcessId>,
    s: Result<RebarPid, i32>,
)
    requires
        call_ensures(send_code, (answer,), r),
        call_ensures(rebar_spawn, (callback, out, pid), s),
    ensures
        r == 0 <==> answer is Some && answer->0 is Ok,
        r == 0 || r == -2,
        s is Ok <==> callback && out && pid is Some,
        s is Ok ==> s->Ok_0.process() == pid->0,
        !callback || !out ==> s is Err && s->Err_0 == -1,
{
}

/// The runtime's thread ends where it is told to or nobody can tell it any more, and looks again
/// where there is nothing yet; a send to a process that is dead fails.
pub proof fn threads_serve_until_told_to_end<R: MessageRouter>(
    before: Runtime<R>,
    poll: CommandPoll,
    after: Runtime<R>,
    r: CommandStep,
)
    requires
        exists|m: &mut Runtime<R>|
            *m == before && *final(m) == after && #[trigger] call_ensures(
                serve_command::<R>,
                (m, poll),
                r,
            ),
    ensures
        r is Stop <==> poll is Disconnected || (poll matches CommandPoll::Command(FfiCommand::Shutdown)),
        r is Idle <==> poll is Empty,
        r is Sent <==> (poll matches CommandPoll::Command(FfiCommand::Send { .. })),
        r matches CommandStep::Spawned(context) ==> after.processes().alive().dom().contains(
            context.identity(),
        ),
        !(r is Spawned) ==> after == before,
        before.routes_by() is None ==> (poll matches CommandPoll::Command(FfiCommand::Send { dest, .. })
            ==> (!before.processes().alive().dom().contains(dest) ==> r == CommandStep::Sent(
            Err(SendError::ProcessDead(dest)),
        ))),
{
}

/// A name that is missing or no text, and a missing place for the answer, are refused each with
/// its code, and give nobody a name.
pub proof fn bad_names_are_refused(
    before: RebarRuntime,
    name: Option<&[u8]>,
    pid: RebarPid,
    after: RebarRuntime,
    code: i32,
    has_out: bool,
    found: Result<RebarPid, i32>,
)
    requires
        name matches Some(bytes) ==> !valid_utf8(bytes@),
        exists|m: &mut RebarRuntime|
            *m == before && *final(m) == after && #[trigger] call_ensures(
                RebarRuntime::rebar_register,
                (m, name, pid),
                code,
            ),
        call_ensures(RebarRuntime::rebar_whereis, (&before, name, has_out), found),
    ensures
        name is None ==> code == -1,
        name is Some ==> code == -4,
        after.named() == before.named(),
        found is Err,
        !has_out || name is None ==> found->Err_0 == -1,
        has_out && name is Some ==> found->Err_0 == -4,
{
}

} // verus!
