//! What servers and their clients promise from one call to the next.
use crate::counter::Counter;
use crate::gen_server::engine;
use crate::gen_server::engine::{
    begin_call, calls_leave_no_trace, cast_from_runtime, end_call, match_reply,
    missing_ref_reply, receive, reply_from_runtime, start_named, supervised_exit,
    undecodable_reply, CallError, Incoming, PendingCall,
};
use crate::gen_server::envelope::{
    call_envelope, call_payload, call_round_trip, cast_envelope, cast_payload, cast_round_trip,
    extract_gs_type, extract_number, extract_or_nil, field_is_the_value_under_the_key, gs_type,
    reply_envelope, reply_payload, reply_round_trip,
};
use crate::gen_server::serving::{
    client_step, decoded_reply, server_step, told_result, ClientEvent, ClientStep, ServerEvent,
    ServerPhase, ServerStep,
};
use crate::gen_server::typed;
use crate::gen_server::typed::{
    next_event, open_server, typed_call_result, typed_can_happen, typed_cast_result, typed_step,
    Channel, TypedAction, TypedEvent, TypedHappening, TypedPhase, TypedWait,
};
use crate::process::mailbox::MailboxRx;
use crate::process::table::ProcessTable;
use crate::process::{ExitReason, Message, ProcessId, RegistryError, SendError};
use crate::router::{delivered, LocalRouter, MessageRouter};
use crate::runtime::{local_routers_reach_home, ProcessContext, Runtime};
use crate::term::{Term, TermView};
use vstd::prelude::*;

verus! {

proof fn kinds_differ()
    ensures
        "call"@ != "cast"@,
        "call"@ != "reply"@,
        "cast"@ != "reply"@,
{
    cast_round_trip(TermView::Nil);
    reply_round_trip(0, TermView::Nil);
}

/// What a message is to a server is told by what it says it is: a call or a cast by its kind, a
/// reply is ignored, and anything else is there as it is.
pub proof fn messages_are_taken_for_what_they_are(
    msg: Message,
    r: Incoming,
)
    requires
        call_ensures(receive, (&msg,), r),
    ensures
        gs_type(msg.body()@) == Some("call"@) <==> r is Call || r is BadCall,
        gs_type(msg.body()@) == Some("cast"@) <==> r is Cast,
        gs_type(msg.body()@) == Some("reply"@) <==> r is Ignored,
        r is Info <==> gs_type(msg.body()@) != Some("call"@) && gs_type(msg.body()@) != Some("cast"@)
            && gs_type(msg.body()@) != Some("reply"@),
        r is Info ==> r->Info_payload@ == msg.body()@,
        r is Call ==> r->Call_from.pid == msg.sender() && r->Call_from.ref_id != 0,
{
    kinds_differ();
}

/// A request that a client sends reaches the server's handler as the call of that client: what is
/// put into the message is what is decoded.
pub proof fn requests_reach_the_server<State, Call, Cast>(
    state: State,
    ref_id: u64,
    request: Term,
    payload: Term,
    msg: Message,
    r: ServerStep<State, Call, Cast>,
)
    requires
        ref_id != 0,
        call_ensures(call_envelope, (ref_id, request), payload),
        msg.body()@ == payload@,
        call_ensures(
            server_step::<State, Call, Cast>,
            (ServerPhase::Waiting(state), ServerEvent::Received(msg)),
            r,
        ),
    ensures
        r.action is DecodeCall,
        r.action->DecodeCall_0@ == request@,
        r.phase == (ServerPhase::DecodingCall { from: engine::From { pid: msg.sender(), ref_id }, state }),
        r.reply is None,
{
    call_round_trip(ref_id, request@);
}

/// A message of any other kind reaches the server's handler with the server's state.
pub proof fn info_reaches_the_server<State, Call, Cast>(
    state: State,
    msg: Message,
    r: ServerStep<State, Call, Cast>,
)
    requires
        gs_type(msg.body()@) != Some("call"@),
        gs_type(msg.body()@) != Some("cast"@),
        gs_type(msg.body()@) != Some("reply"@),
        call_ensures(
            server_step::<State, Call, Cast>,
            (ServerPhase::Waiting(state), ServerEvent::Received(msg)),
            r,
        ),
    ensures
        r.action is HandleInfo,
        r.action->HandleInfo_payload@ == msg.body()@,
        r.action->HandleInfo_state == state,
        r.reply is None,
{
}

/// A response reaches the client that waits for it: the reply that a server sends under a
/// reference ends the wait of the call with that reference, with the response, and of no other.
pub proof fn responses_reach_the_client(
    ref_id: u64,
    response: Term,
    payload: Term,
    msg: Message,
    waiting: u64,
    r: ClientStep,
)
    requires
        call_ensures(reply_envelope, (ref_id, response), payload),
        msg.body()@ == payload@,
        call_ensures(client_step, (waiting, ClientEvent::Received(msg)), r),
    ensures
        waiting == ref_id ==> (r matches ClientStep::Done(Ok(v)) && v@ == response@),
        waiting != ref_id ==> r is Wait,
{
    reply_round_trip(ref_id, response@);
}

/// A client whose call cannot be sent, or to which nobody can send any more, learns that the
/// server is dead; one whose time is up, that it is.
pub proof fn clients_learn_why(
    ref_id: u64,
    e: SendError,
    unsent: ClientStep,
    closed: ClientStep,
    late: ClientStep,
    sent: ClientStep,
)
    requires
        call_ensures(client_step, (ref_id, ClientEvent::Sent(Err(e))), unsent),
        call_ensures(client_step, (ref_id, ClientEvent::Closed), closed),
        call_ensures(client_step, (ref_id, ClientEvent::TimedOut), late),
        call_ensures(client_step, (ref_id, ClientEvent::Sent(Ok(()))), sent),
    ensures
        unsent == ClientStep::Done(Err(CallError::ServerDead)),
        closed == ClientStep::Done(Err(CallError::ServerDead)),
        late == ClientStep::Done(Err(CallError::Timeout)),
        sent is Wait,
{
}

/// A reply that cannot be decoded, and a call of which nothing is told, count as a dead server;
/// what came counts as it is.
pub proof fn missing_results_are_dead_servers<T>(
    reply: Option<T>,
    r: Result<T, CallError>,
    told: Option<Result<Term, CallError>>,
    s: Result<Term, CallError>,
)
    requires
        call_ensures(decoded_reply::<T>, (reply,), r),
        call_ensures(told_result, (told,), s),
    ensures
        reply is None ==> r == Err::<T, CallError>(CallError::ServerDead),
        reply is Some ==> r == Ok::<T, CallError>(reply->0),
        told is None ==> s == Err::<Term, CallError>(CallError::ServerDead),
        told is Some ==> s == told->0,
{
}

/// A call leaves no trace: once it has ended, its process is gone, and the processes and names are
/// what they were before it began; while it lasts its process is alive, under the next number.
pub proof fn ended_calls_leave_no_trace(
    before: ProcessTable,
    refs: Counter,
    refs_after: Counter,
    begun: ProcessTable,
    call: PendingCall,
    ended: ProcessTable,
    first: bool,
    last: bool,
)
    requires
        before.wf(),
        exists|t: &mut ProcessTable, c: &mut Counter|
            *t == before && *final(t) == begun && *c == refs && *final(c) == refs_after
                && #[trigger] call_ensures(begin_call, (t, c), call),
        !before.alive().dom().contains(call.pid),
        exists|t: &mut ProcessTable|
            *t == begun && *final(t) == ended && #[trigger] call_ensures(
                end_call,
                (t, call.pid),
                (),
            ),
        call_ensures(ProcessTable::is_alive, (&begun, &call.pid), first),
        call_ensures(ProcessTable::is_alive, (&ended, &call.pid), last),
    ensures
        first,
        !last,
        ended.alive() == before.alive(),
        ended.named() == before.named(),
        call.ref_id == refs@,
        refs_after@ != refs@,
{
    calls_leave_no_trace(before, begun, ended, call.pid);
}

/// A supervised server that said why it ended ended for that; one that could not say ended
/// abnormally.
pub proof fn supervised_servers_say_why(
    told: Option<ExitReason>,
    r: ExitReason,
)
    requires
        call_ensures(supervised_exit, (told,), r),
    ensures
        told matches Some(reason) ==> r == reason,
        told is None ==> r is Abnormal,
{
}

/// A server of typed channels takes what comes first: a call before a cast, and a cast before
/// anything else; with nothing there it waits.
pub proof fn typed_servers_take_what_comes_first<C, D, M>(
    call: Channel<C>,
    cast: Channel<D>,
    info: Channel<M>,
    r: TypedEvent<C, D, M>,
)
    requires
        call_ensures(next_event::<C, D, M>, (call, cast, info), r),
    ensures
        call matches Channel::Item(c) ==> r == TypedEvent::<C, D, M>::Call(c),
        call is Empty ==> (cast matches Channel::Item(d) ==> r == TypedEvent::<C, D, M>::Cast(d)),
        call is Empty && cast is Empty ==> (info matches Channel::Item(m) ==> r == TypedEvent::<
            C,
            D,
            M,
        >::Info(m)),
        r is Wait <==> call is Empty && cast is Empty && info is Empty,
        r is Stop ==> call is Closed || cast is Closed || info is Closed,
{
}

/// A server of typed channels ends where it could not start, was cleaned up or panicked, and looks
/// at its channels again after each thing that it handled.
pub proof fn typed_servers_run_until_they_end<C, D, M>(
    phase: TypedPhase,
    event: TypedHappening<C, D, M>,
    r: (TypedPhase, TypedAction<C, D, M>),
)
    requires
        typed_can_happen(phase, event),
        call_ensures(typed_step::<C, D, M>, (phase, event), r),
    ensures
        r.0 == TypedPhase::Ended <==> event is Terminated || event is Panicked || event
            == TypedHappening::<C, D, M>::Started(false),
        event is Handled || event == TypedHappening::<C, D, M>::Started(true) ==> r.0
            == TypedPhase::Serving && r.1 is Look,
        r.0 == TypedPhase::Ended <==> r.1 is Leave,
        r.1 is Terminate ==> event is Looked,
{
}

/// A typed call ends well only with its reply; it fails for want of time only where the time was
/// up.
pub proof fn typed_calls_end_for_a_reason<T>(
    wait: TypedWait<T>,
    r: Result<T, typed::CallError>,
    pid: ProcessId,
    taken: bool,
    s: Result<(), SendError>,
)
    requires
        call_ensures(typed_call_result::<T>, (wait,), r),
        call_ensures(typed_cast_result, (pid, taken), s),
    ensures
        wait matches TypedWait::Replied(v) ==> r == Ok::<T, typed::CallError>(v),
        r is Ok ==> wait is Replied,
        r == Err::<T, typed::CallError>(typed::CallError::Timeout) <==> wait is TimedOut,
        s is Ok <==> taken,
        !taken ==> s == Err::<(), SendError>(SendError::ProcessDead(pid)),
{
}

/// A server that was opened is alive, under the next number, and the others stay.
pub proof fn opened_servers_are_alive(
    before: ProcessTable,
    after: ProcessTable,
    r: (ProcessId, MailboxRx),
    first: bool,
    other: ProcessId,
    was: bool,
    still: bool,
)
    requires
        other != r.0,
        exists|m: &mut ProcessTable|
            *m == before && *final(m) == after && #[trigger] call_ensures(
                open_server,
                (m,),
                r,
            ),
        call_ensures(ProcessTable::is_alive, (&after, &r.0), first),
        call_ensures(ProcessTable::is_alive, (&before, &other), was),
        call_ensures(ProcessTable::is_alive, (&after, &other), still),
    ensures
        first,
        still == was,
        r.0.local() == before.next_local(),
        after.next_local() > before.next_local(),
{
    broadcast use crate::process::types::pid_of_parts;

    assert(after.alive().dom().contains(other) <==> before.alive().dom().contains(other));
}

/// What a server sends by the local router is delivered from it to the receiver: a cast, a message
/// and a reply each in its own form.
pub proof fn servers_send_in_the_right_form(
    context: engine::GenServerContext<LocalRouter>,
    home: ProcessTable,
    dest: ProcessId,
    to: engine::From,
    request: Term,
    a: Result<(), SendError>,
    b: Result<(), SendError>,
    c: Result<(), SendError>,
)
    requires
        call_ensures(
            engine::GenServerContext::<LocalRouter>::cast,
            (&context, &home, dest, request),
            a,
        ),
        call_ensures(
            engine::GenServerContext::<LocalRouter>::send_info,
            (&context, &home, dest, request),
            b,
        ),
        call_ensures(
            engine::GenServerContext::<LocalRouter>::reply,
            (&context, &home, &to, request),
            c,
        ),
    ensures
        delivered(home, context.pid(), dest, cast_payload(request@), false, a),
        delivered(home, context.pid(), dest, request@, false, b),
        delivered(home, context.pid(), to.pid, reply_payload(to.ref_id, request@), false, c),
{
}

/// What a client sends by the local router goes to its server: a cast from nobody, and a call from
/// the process that stands for it, under its reference.
pub proof fn clients_send_to_their_server(
    server: engine::GenServerRef<LocalRouter>,
    home: ProcessTable,
    call: PendingCall,
    request: Term,
    a: Result<(), SendError>,
    b: Result<(), SendError>,
)
    requires
        call_ensures(engine::GenServerRef::<LocalRouter>::cast, (&server, &home, request), a),
        call_ensures(
            engine::GenServerRef::<LocalRouter>::send_call,
            (&server, &home, &call, request),
            b,
        ),
    ensures
        delivered(home, ProcessId::of(0, 0, 0), server.server(), cast_payload(request@), false, a),
        delivered(
            home,
            call.pid,
            server.server(),
            call_payload(call.ref_id, request@),
            false,
            b,
        ),
{
}

/// A payload gives back what was put into it: its kind, its reference and its request or response,
/// and nothing of what it does not have.
pub proof fn payloads_give_back_what_was_put(
    ref_id: u64,
    v: Term,
    call: Term,
    cast: Term,
    reply: Term,
    kind: Option<&str>,
    number: Option<u64>,
    request: Term,
    none: Option<u64>,
    matched: Option<Term>,
    other: u64,
    missed: Option<Term>,
)
    requires
        other != ref_id,
        call_ensures(call_envelope, (ref_id, v), call),
        call_ensures(cast_envelope, (v,), cast),
        call_ensures(reply_envelope, (ref_id, v), reply),
        call_ensures(extract_gs_type, (&call,), kind),
        call_ensures(extract_number, (&call, "ref"), number),
        call_ensures(extract_or_nil, (&call, "req"), request),
        call_ensures(extract_number, (&cast, "ref"), none),
        call_ensures(match_reply, (&reply, ref_id), matched),
        call_ensures(match_reply, (&reply, other), missed),
    ensures
        kind is Some && kind->0@ == "call"@,
        number == Some(ref_id),
        request@ == v@,
        none is None,
        matched is Some && matched->0@ == v@,
        missed is None,
{
    call_round_trip(ref_id, v@);
    reply_round_trip(ref_id, v@);
    reveal_strlit("$gs");
    reveal_strlit("ref");
    reveal_strlit("req");
    assert("$gs"@[0] != "ref"@[0]);
    assert("req"@[2] != "ref"@[2]);
    let pairs = cast_payload(v@)->Mapping_0;
    field_is_the_value_under_the_key(cast_payload(v@), pairs, "ref"@, 0);
    assert(forall|j: int|
        0 <= j < pairs.len() ==> (#[trigger] pairs[j]).0 != TermView::String("ref"@));
}

/// An error of a call says which of the two it is.
pub proof fn call_errors_say_which(
    e: CallError,
    r: String,
    t: typed::CallError,
    s: String,
)
    requires
        call_ensures(CallError::to_string, (&e,), r),
        call_ensures(typed::CallError::to_string, (&t,), s),
    ensures
        e == CallError::Timeout ==> r@ == "call timed out"@,
        e == CallError::ServerDead ==> r@ == "server is dead"@,
        t == typed::CallError::Timeout ==> s@ == "call timeout: server did not respond in time"@,
        t == typed::CallError::ServerDead ==> s@ == "server dead: channel closed"@,
{
}

/// A server that is started under a name has it where the name was free, and else is there without
/// it.
pub proof fn started_servers_have_their_name<R: MessageRouter>(
    before: Runtime<R>,
    name: String,
    after: Runtime<R>,
    r: (ProcessContext, Result<ProcessId, RegistryError>),
)
    requires
        exists|m: &mut Runtime<R>|
            *m == before && *final(m) == after && #[trigger] call_ensures(
                start_named::<R>,
                (m, name),
                r,
            ),
    ensures
        after.processes().alive().dom().contains(r.0.identity()),
        r.1 is Ok <==> !before.processes().named().dom().contains(name@),
        r.1 is Ok ==> r.1->Ok_0 == r.0.identity() && after.processes().named().dom().contains(name@)
            && after.processes().named()[name@] == r.0.identity(),
        r.1 is Err ==> after.processes().named() == before.processes().named(),
{
}

/// What is sent to a server from outside any process comes from process zero of the node, in the
/// form of a cast or a reply.
pub proof fn sends_from_outside_come_from_the_node(
    runtime: Runtime<LocalRouter>,
    dest: ProcessId,
    to: engine::From,
    v: Term,
    a: Result<(), SendError>,
    b: Result<(), SendError>,
)
    requires
        runtime.wf(),
        call_ensures(cast_from_runtime::<LocalRouter>, (&runtime, dest, v), a),
        call_ensures(reply_from_runtime::<LocalRouter>, (&runtime, &to, v), b),
    ensures
        delivered(
            runtime.processes(),
            ProcessId::of(runtime.node(), 0, 0),
            dest,
            cast_payload(v@),
            false,
            a,
        ),
        delivered(
            runtime.processes(),
            ProcessId::of(runtime.node(), 0, 0),
            to.pid,
            reply_payload(to.ref_id, v@),
            false,
            b,
        ),
{
    let from = ProcessId::of(runtime.node(), 0, 0);
    let p = choose|p: Term|
        p@ == cast_payload(v@) && #[trigger] runtime.answers(from, dest, p, a);
    local_routers_reach_home(runtime, from, dest, p, a);
    let q = choose|q: Term|
        q@ == reply_payload(to.ref_id, v@) && #[trigger] runtime.answers(from, to.pid, q, b);
    local_routers_reach_home(runtime, from, to.pid, q, b);
}

/// A typed server without a router reaches nobody.
pub proof fn routers_are_needed_to_send<R: MessageRouter>(
    context: typed::GenServerContext<R>,
    home: ProcessTable,
    dest: ProcessId,
    payload: Term,
    r: Result<(), SendError>,
)
    requires
        context.router() is None,
        call_ensures(typed::GenServerContext::<R>::send, (&context, &home, dest, payload), r),
    ensures
        r == Err::<(), SendError>(SendError::ProcessDead(dest)),
{
}

/// The complaints that a server answers with say what was wrong with the call, and a server that
/// could not say why it ended is told of as dropped.
pub proof fn complaints_say_what_was_wrong(
    a: Term,
    b: Term,
    r: ExitReason,
)
    requires
        call_ensures(missing_ref_reply, (), a),
        call_ensures(undecodable_reply, (), b),
        call_ensures(supervised_exit, (None::<ExitReason>,), r),
    ensures
        a@ == TermView::String("bad_call: missing ref_id"@),
        b@ == TermView::String("bad_call: could not decode message"@),
        r matches ExitReason::Abnormal(why) && why@ == "process dropped without sending exit reason"@,
{
}

} // verus!
