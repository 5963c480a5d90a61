//! The life of a server and of a call: what each does next, given what just happened.
//!
//! The work itself, which is decoding requests, running handlers and waiting for messages, is
//! done by the caller, who hands back what came of it.
use crate::gen_server::engine;
use crate::gen_server::engine::{
    is_incoming, match_reply, missing_ref_reply, receive, response_of, undecodable_reply,
    CallError, CallReply, CastReply, Incoming, InfoReply,
};
use crate::gen_server::envelope::{
    call_payload, call_round_trip, cast_payload, cast_round_trip, gs_type,
    kind_is_the_text_under_the_key, number_of, reply_payload, reply_round_trip,
};
use crate::process::{ExitReason, Message, SendError};
use crate::term::{Term, TermView};
use vstd::prelude::*;

verus! {

/// Where a server stands. Its state is here, except while a handler works with it.
pub enum ServerPhase<State> {
    /// Its initialisation runs.
    Starting,
    /// It waits for a message.
    Waiting(State),
    /// The request of a call is decoded.
    DecodingCall { from: engine::From, state: State },
    /// The request of a cast is decoded.
    DecodingCast(State),
    /// Its handler works on a call.
    HandlingCall { from: engine::From },
    /// Its handler works on a cast.
    HandlingCast,
    /// Its handler works on another message.
    HandlingInfo,
    /// Its clean-up runs.
    Terminating,
    /// It has ended.
    Ended,
}

/// What happened to a server.
pub enum ServerEvent<State, Call, Cast> {
    Started(Result<State, String>),
    Received(Message),
    /// No sender is left.
    Closed,
    /// The request of a call, if it could be decoded.
    DecodedCall(Option<Call>),
    /// The request of a cast, if it could be decoded.
    DecodedCast(Option<Cast>),
    HandledCall(CallReply<State>),
    HandledCast(CastReply<State>),
    HandledInfo(InfoReply<State>),
    Terminated,
}

/// What a server has to do.
pub enum ServerAction<State, Call, Cast> {
    Receive,
    DecodeCall(Term),
    DecodeCast(Term),
    HandleCall { call: Call, from: engine::From, state: State },
    HandleCast { cast: Cast, state: State },
    HandleInfo { payload: Term, state: State },
    Terminate { reason: String, state: State },
    Exit(ExitReason),
}

/// What an event leads to.
pub struct ServerStep<State, Call, Cast> {
    pub phase: ServerPhase<State>,
    /// A reply that goes out before anything else.
    pub reply: Option<(engine::From, Term)>,
    pub action: ServerAction<State, Call, Cast>,
}

/// Whether an event can happen in a phase: it ends what the phase is about.
pub open spec fn can_happen<State, Call, Cast>(
    phase: ServerPhase<State>,
    event: ServerEvent<State, Call, Cast>,
) -> bool {
    match event {
        ServerEvent::Started(_) => phase is Starting,
        ServerEvent::Received(_) | ServerEvent::Closed => phase is Waiting,
        ServerEvent::DecodedCall(_) => phase is DecodingCall,
        ServerEvent::DecodedCast(_) => phase is DecodingCast,
        ServerEvent::HandledCall(_) => phase is HandlingCall,
        ServerEvent::HandledCast(_) => phase is HandlingCast,
        ServerEvent::HandledInfo(_) => phase is HandlingInfo,
        ServerEvent::Terminated => phase is Terminating,
    }
}

/// Whether a step sends this reply, or none.
pub open spec fn replies<State, Call, Cast>(
    r: ServerStep<State, Call, Cast>,
    reply: Option<(engine::From, TermView)>,
) -> bool {
    match reply {
        Some((to, content)) => r.reply matches Some((client, response)) && client == to
            && response@ == content,
        None => r.reply is None,
    }
}

/// Whether a step leads to the wait for the next message, in a state.
pub open spec fn waits<State, Call, Cast>(r: ServerStep<State, Call, Cast>, state: State) -> bool {
    r.phase == ServerPhase::Waiting(state) && r.action is Receive
}

/// Whether a step leads to the clean-up, for a reason and in a state.
pub open spec fn cleans_up<State, Call, Cast>(
    r: ServerStep<State, Call, Cast>,
    reason: Seq<char>,
    state: State,
) -> bool {
    &&& r.phase is Terminating
    &&& r.action is Terminate
    &&& r.action->Terminate_reason@ == reason
    &&& r.action->Terminate_state == state
}

/// What a message to a waiting server leads to: a call or a cast is decoded, a call without a
/// reference is answered with a complaint, a stray reply is ignored, and anything else goes to
/// the handler as it is.
pub open spec fn takes_message<State, Call, Cast>(
    state: State,
    msg: Message,
    r: ServerStep<State, Call, Cast>,
) -> bool {
    exists|m: Incoming| #[trigger]
        is_incoming(msg.sender(), msg.body()@, m) && match m {
            Incoming::Call { from, request } => {
                &&& r.phase == (ServerPhase::DecodingCall { from, state })
                &&& r.action is DecodeCall
                &&& r.action->DecodeCall_0@ == request@
                &&& replies(r, None)
            },
            Incoming::BadCall { from } => {
                &&& waits(r, state)
                &&& replies(r, Some((from, TermView::String("bad_call: missing ref_id"@))))
            },
            Incoming::Cast { request } => {
                &&& r.phase == ServerPhase::DecodingCast(state)
                &&& r.action is DecodeCast
                &&& r.action->DecodeCast_0@ == request@
                &&& replies(r, None)
            },
            Incoming::Ignored => waits(r, state) && replies(r, None),
            Incoming::Info { payload } => {
                &&& r.phase is HandlingInfo
                &&& r.action is HandleInfo
                &&& r.action->HandleInfo_payload@ == payload@
                &&& r.action->HandleInfo_state == state
                &&& replies(r, None)
            },
        }
}

/// What an event leads to.
pub open spec fn is_server_step<State, Call, Cast>(
    phase: ServerPhase<State>,
    event: ServerEvent<State, Call, Cast>,
    r: ServerStep<State, Call, Cast>,
) -> bool {
    match (phase, event) {
        (_, ServerEvent::Started(Ok(state))) => waits(r, state) && replies(r, None),
        (_, ServerEvent::Started(Err(reason))) => {
            &&& r.phase is Ended
            &&& r.action == ServerAction::<State, Call, Cast>::Exit(ExitReason::Abnormal(reason))
            &&& replies(r, None)
        },
        (ServerPhase::Waiting(state), ServerEvent::Received(msg)) => takes_message(state, msg, r),
        (ServerPhase::Waiting(state), ServerEvent::Closed) => cleans_up(r, "normal"@, state)
            && replies(r, None),
        (ServerPhase::DecodingCall { from, state }, ServerEvent::DecodedCall(Some(call))) => {
            &&& r.phase == (ServerPhase::<State>::HandlingCall { from })
            &&& r.action == (ServerAction::<State, Call, Cast>::HandleCall { call, from, state })
            &&& replies(r, None)
        },
        (ServerPhase::DecodingCall { from, state }, ServerEvent::DecodedCall(None)) => {
            &&& waits(r, state)
            &&& replies(r, Some((from, TermView::String("bad_call: could not decode message"@))))
        },
        (ServerPhase::DecodingCast(state), ServerEvent::DecodedCast(Some(cast))) => {
            &&& r.phase is HandlingCast
            &&& r.action == (ServerAction::<State, Call, Cast>::HandleCast { cast, state })
            &&& replies(r, None)
        },
        (ServerPhase::DecodingCast(state), ServerEvent::DecodedCast(None)) => waits(r, state)
            && replies(r, None),
        (ServerPhase::HandlingCall { from }, ServerEvent::HandledCall(reply)) => match reply {
            CallReply::Reply(response, state) => waits(r, state) && replies(
                r,
                Some((from, response@)),
            ),
            CallReply::NoReply(state) => waits(r, state) && replies(r, None),
            CallReply::Stop(reason, response, state) => cleans_up(r, reason@, state) && replies(
                r,
                Some((from, response@)),
            ),
        },
        (_, ServerEvent::HandledCast(CastReply::NoReply(state))) => waits(r, state) && replies(
            r,
            None,
        ),
        (_, ServerEvent::HandledCast(CastReply::Stop(reason, state))) => cleans_up(
            r,
            reason@,
            state,
        ) && replies(r, None),
        (_, ServerEvent::HandledInfo(InfoReply::NoReply(state))) => waits(r, state) && replies(
            r,
            None,
        ),
        (_, ServerEvent::HandledInfo(InfoReply::Stop(reason, state))) => cleans_up(
            r,
            reason@,
            state,
        ) && replies(r, None),
        (_, ServerEvent::Terminated) => {
            &&& r.phase is Ended
            &&& r.action == ServerAction::<State, Call, Cast>::Exit(ExitReason::Normal)
            &&& replies(r, None)
        },
        _ => false,
    }
}

/// The step to the wait for the next message.
fn wait_step<State, Call, Cast>(state: State, reply: Option<(engine::From, Term)>) -> (r: ServerStep<
    State,
    Call,
    Cast,
>)
    ensures
        waits(r, state),
        r.reply == reply,
{
    ServerStep { phase: ServerPhase::Waiting(state), reply, action: ServerAction::Receive }
}

/// The step to the clean-up.
fn clean_up_step<State, Call, Cast>(
    reason: String,
    state: State,
    reply: Option<(engine::From, Term)>,
) -> (r: ServerStep<State, Call, Cast>)
    ensures
        cleans_up(r, reason@, state),
        r.reply == reply,
{
    ServerStep {
        phase: ServerPhase::Terminating,
        reply,
        action: ServerAction::Terminate { reason, state },
    }
}

/// The end.
fn end_step<State, Call, Cast>(reason: ExitReason) -> (r: ServerStep<State, Call, Cast>)
    ensures
        r.phase is Ended,
        r.reply is None,
        r.action == ServerAction::<State, Call, Cast>::Exit(reason),
{
    ServerStep { phase: ServerPhase::Ended, reply: None, action: ServerAction::Exit(reason) }
}

/// What a message to a waiting server leads to.
fn message_step<State, Call, Cast>(state: State, msg: &Message) -> (r: ServerStep<
    State,
    Call,
    Cast,
>)
    ensures
        takes_message(state, *msg, r),
{
    let m = receive(msg);
    assert(is_incoming(msg.sender(), msg.body()@, m));
    match m {
        Incoming::Call { from, request } => ServerStep {
            phase: ServerPhase::DecodingCall { from, state },
            reply: None,
            action: ServerAction::DecodeCall(request),
        },
        Incoming::BadCall { from } => wait_step(state, Some((from, missing_ref_reply()))),
        Incoming::Cast { request } => ServerStep {
            phase: ServerPhase::DecodingCast(state),
            reply: None,
            action: ServerAction::DecodeCast(request),
        },
        Incoming::Ignored => wait_step(state, None),
        Incoming::Info { payload } => ServerStep {
            phase: ServerPhase::HandlingInfo,
            reply: None,
            action: ServerAction::HandleInfo { payload, state },
        },
    }
}

/// What an event leads to. A server begins in the phase `Starting`.
pub fn server_step<State, Call, Cast>(
    phase: ServerPhase<State>,
    event: ServerEvent<State, Call, Cast>,
) -> (r: ServerStep<State, Call, Cast>)
    requires
        can_happen(phase, event),
    ensures
        is_server_step(phase, event, r),
        phase matches ServerPhase::Waiting(state) ==> (event matches ServerEvent::Received(msg) ==> (
        gs_type(msg.body()@) != Some("call"@) && gs_type(msg.body()@) != Some("cast"@) && gs_type(
            msg.body()@,
        ) != Some("reply"@) ==> {
            &&& r.phase is HandlingInfo
            &&& r.action is HandleInfo
            &&& r.action->HandleInfo_payload@ == msg.body()@
            &&& r.action->HandleInfo_state == state
            &&& r.reply is None
        })),
{
    match (phase, event) {
        (_, ServerEvent::Started(Ok(state))) => wait_step(state, None),
        (_, ServerEvent::Started(Err(reason))) => end_step(ExitReason::Abnormal(reason)),
        (ServerPhase::Waiting(state), ServerEvent::Received(msg)) => message_step(state, &msg),
        (ServerPhase::Waiting(state), ServerEvent::Closed) => clean_up_step(
            "normal".to_string(),
            state,
            None,
        ),
        (ServerPhase::DecodingCall { from, state }, ServerEvent::DecodedCall(Some(call))) => {
            ServerStep {
                phase: ServerPhase::HandlingCall { from },
                reply: None,
                action: ServerAction::HandleCall { call, from, state },
            }
        },
        (ServerPhase::DecodingCall { from, state }, ServerEvent::DecodedCall(None)) => wait_step(
            state,
            Some((from, undecodable_reply())),
        ),
        (ServerPhase::DecodingCast(state), ServerEvent::DecodedCast(Some(cast))) => ServerStep {
            phase: ServerPhase::HandlingCast,
            reply: None,
            action: ServerAction::HandleCast { cast, state },
        },
        (ServerPhase::DecodingCast(state), ServerEvent::DecodedCast(None)) => wait_step(
            state,
            None,
        ),
        (ServerPhase::HandlingCall { from }, ServerEvent::HandledCall(reply)) => match reply {
            CallReply::Reply(response, state) => wait_step(state, Some((from, response))),
            CallReply::NoReply(state) => wait_step(state, None),
            CallReply::Stop(reason, response, state) => clean_up_step(
                reason,
                state,
                Some((from, response)),
            ),
        },
        (_, ServerEvent::HandledCast(CastReply::NoReply(state))) => wait_step(state, None),
        (_, ServerEvent::HandledCast(CastReply::Stop(reason, state))) => clean_up_step(
            reason,
            state,
            None,
        ),
        (_, ServerEvent::HandledInfo(InfoReply::NoReply(state))) => wait_step(state, None),
        (_, ServerEvent::HandledInfo(InfoReply::Stop(reason, state))) => clean_up_step(
            reason,
            state,
            None,
        ),
        _ => end_step(ExitReason::Normal),
    }
}

/// A server always goes on: after every step it is in a phase for which its action brings the
/// next event, or it has ended.
pub proof fn servers_go_on<State, Call, Cast>(
    phase: ServerPhase<State>,
    event: ServerEvent<State, Call, Cast>,
    r: ServerStep<State, Call, Cast>,
)
    requires
        can_happen(phase, event),
        is_server_step(phase, event, r),
    ensures
        match r.action {
            ServerAction::Receive => r.phase is Waiting,
            ServerAction::DecodeCall(_) => r.phase is DecodingCall,
            ServerAction::DecodeCast(_) => r.phase is DecodingCast,
            ServerAction::HandleCall { .. } => r.phase is HandlingCall,
            ServerAction::HandleCast { .. } => r.phase is HandlingCast,
            ServerAction::HandleInfo { .. } => r.phase is HandlingInfo,
            ServerAction::Terminate { .. } => r.phase is Terminating,
            ServerAction::Exit(_) => r.phase is Ended,
        },
{
}

/// A server that started ends only after its clean-up, and then normally; one that could not
/// start ends abnormally, without a clean-up.
pub proof fn servers_clean_up_before_they_end<State, Call, Cast>(
    phase: ServerPhase<State>,
    event: ServerEvent<State, Call, Cast>,
    r: ServerStep<State, Call, Cast>,
)
    requires
        can_happen(phase, event),
        is_server_step(phase, event, r),
        r.action is Exit,
    ensures
        phase is Starting || phase is Terminating,
        phase is Terminating ==> r.action->Exit_0 == ExitReason::Normal,
        phase is Starting ==> event is Started && event->Started_0 is Err && r.action->Exit_0
            == ExitReason::Abnormal(event->Started_0->Err_0),
{
}

/// Messages that a server cannot make sense of leave its state as it was: calls without a
/// reference, requests that cannot be decoded, and stray replies.
pub proof fn nonsense_changes_nothing<State, Call, Cast>(
    state: State,
    phase: ServerPhase<State>,
    event: ServerEvent<State, Call, Cast>,
    r: ServerStep<State, Call, Cast>,
)
    requires
        is_server_step(phase, event, r),
        match phase {
            ServerPhase::Waiting(s) => s == state && event is Received && r.phase is Waiting,
            ServerPhase::DecodingCall { state: s, .. } => s == state && event
                == ServerEvent::<State, Call, Cast>::DecodedCall(None),
            ServerPhase::DecodingCast(s) => s == state && event == ServerEvent::<
                State,
                Call,
                Cast,
            >::DecodedCast(None),
            _ => false,
        },
    ensures
        waits(r, state),
{
}

/// A call that reaches a waiting server is decoded with its own request, and what the handler
/// replies goes to the process that called, under the reference of the call; a reference of
/// zero is none.
pub proof fn calls_are_answered<State, Call, Cast>(
    state: State,
    msg: Message,
    ref_id: u64,
    request: TermView,
    taken: ServerStep<State, Call, Cast>,
    response: Term,
    after: State,
    answered: ServerStep<State, Call, Cast>,
)
    requires
        ref_id != 0,
        msg.body()@ == call_payload(ref_id, request),
        is_server_step(ServerPhase::Waiting(state), ServerEvent::Received(msg), taken),
        is_server_step(
            ServerPhase::HandlingCall { from: engine::From { pid: msg.sender(), ref_id } },
            ServerEvent::HandledCall(CallReply::Reply(response, after)),
            answered,
        ),
    ensures
        taken.phase == (ServerPhase::DecodingCall {
            from: engine::From { pid: msg.sender(), ref_id },
            state,
        }),
        taken.action is DecodeCall,
        taken.action->DecodeCall_0@ == request,
        replies(answered, Some((engine::From { pid: msg.sender(), ref_id }, response@))),
        waits(answered, after),
{
    call_round_trip(ref_id, request);
}

/// A cast that reaches a waiting server is decoded with its own request, and not answered.
pub proof fn casts_are_taken<State, Call, Cast>(
    state: State,
    msg: Message,
    request: TermView,
    taken: ServerStep<State, Call, Cast>,
)
    requires
        msg.body()@ == cast_payload(request),
        is_server_step(ServerPhase::Waiting(state), ServerEvent::Received(msg), taken),
    ensures
        taken.phase == ServerPhase::DecodingCast(state),
        taken.action is DecodeCast,
        taken.action->DecodeCast_0@ == request,
        taken.reply is None,
{
    cast_round_trip(request);
}

/// What happened to a client that waits for the reply to its call.
pub enum ClientEvent {
    /// The call was handed to the router.
    Sent(Result<(), SendError>),
    Received(Message),
    /// No sender is left.
    Closed,
    TimedOut,
}

/// What a client does next.
pub enum ClientStep {
    /// It waits for the next message.
    Wait,
    /// It is done, with the response, still encoded, or an error.
    Done(Result<Term, CallError>),
}

/// What an event leads to, for a client that waits for the reply to the call with a reference: a
/// call that could not be sent has a dead server, and so has one to whose client nobody can send
/// any more; only the reply with the reference ends the wait otherwise, or the time.
pub open spec fn is_client_step(ref_id: u64, event: ClientEvent, r: ClientStep) -> bool {
    match event {
        ClientEvent::Sent(Ok(())) => r is Wait,
        ClientEvent::Sent(Err(_)) | ClientEvent::Closed => r == ClientStep::Done(
            Err(CallError::ServerDead),
        ),
        ClientEvent::TimedOut => r == ClientStep::Done(Err(CallError::Timeout)),
        ClientEvent::Received(msg) => match response_of(msg.body()@, ref_id) {
            Some(content) => r is Done && r->Done_0 is Ok && r->Done_0->Ok_0@ == content,
            None => r is Wait,
        },
    }
}

/// What an event leads to, for a client that waits for the reply to the call with a reference.
pub fn client_step(ref_id: u64, event: ClientEvent) -> (r: ClientStep)
    ensures
        is_client_step(ref_id, event, r),
{
    match event {
        ClientEvent::Sent(Ok(())) => ClientStep::Wait,
        ClientEvent::Sent(Err(_)) => ClientStep::Done(Err(CallError::ServerDead)),
        ClientEvent::Closed => ClientStep::Done(Err(CallError::ServerDead)),
        ClientEvent::TimedOut => ClientStep::Done(Err(CallError::Timeout)),
        ClientEvent::Received(msg) => match match_reply(msg.payload(), ref_id) {
            Some(response) => ClientStep::Done(Ok(response)),
            None => ClientStep::Wait,
        },
    }
}

/// The result of a call whose reply came, given the reply if it could be decoded.
pub fn decoded_reply<T>(reply: Option<T>) -> (r: Result<T, CallError>)
    ensures
        r == (match reply {
            Some(v) => Ok::<T, CallError>(v),
            None => Err(CallError::ServerDead),
        }),
{
    match reply {
        Some(v) => Ok(v),
        None => Err(CallError::ServerDead),
    }
}

/// The result of a call that a process made on someone's behalf, given what the process told, if
/// it told anything.
pub fn told_result(told: Option<Result<Term, CallError>>) -> (r: Result<Term, CallError>)
    ensures
        r == (match told {
            Some(result) => result,
            None => Err::<Term, CallError>(CallError::ServerDead),
        }),
{
    match told {
        Some(result) => result,
        None => Err(CallError::ServerDead),
    }
}

/// The reply to a call ends the wait of its client with the response, and leaves a client with
/// another reference waiting.
pub proof fn replies_reach_their_clients(
    ref_id: u64,
    response: TermView,
    msg: Message,
    waiting: u64,
    r: ClientStep,
)
    requires
        msg.body()@ == reply_payload(ref_id, response),
        is_client_step(waiting, ClientEvent::Received(msg), r),
    ensures
        if waiting == ref_id {
            r is Done && r->Done_0 is Ok && r->Done_0->Ok_0@ == response
        } else {
            r is Wait
        },
{
    reply_round_trip(ref_id, response);
}

/// A message that is neither a call, a cast nor a reply goes to the handler of a waiting server as
/// it is, with the server's state, and is not answered.
pub proof fn other_messages_are_handled<State, Call, Cast>(
    state: State,
    msg: Message,
    r: ServerStep<State, Call, Cast>,
)
    requires
        is_server_step(ServerPhase::Waiting(state), ServerEvent::Received(msg), r),
        gs_type(msg.body()@) != Some("call"@),
        gs_type(msg.body()@) != Some("cast"@),
        gs_type(msg.body()@) != Some("reply"@),
    ensures
        r.phase is HandlingInfo,
        r.action is HandleInfo,
        r.action->HandleInfo_payload@ == msg.body()@,
        r.action->HandleInfo_state == state,
        r.reply is None,
{
}

/// A message whose payload does not have the key `$gs`, be it a mapping or not, goes to the
/// handler of a waiting server as it is.
pub proof fn plain_messages_are_handled<State, Call, Cast>(
    state: State,
    msg: Message,
    r: ServerStep<State, Call, Cast>,
)
    requires
        is_server_step(ServerPhase::Waiting(state), ServerEvent::Received(msg), r),
        msg.body()@ matches TermView::Mapping(pairs) ==> forall|j: int|
            0 <= j < pairs.len() ==> (#[trigger] pairs[j]).0 != TermView::String("$gs"@),
    ensures
        r.action is HandleInfo,
        r.action->HandleInfo_payload@ == msg.body()@,
        r.action->HandleInfo_state == state,
        r.reply is None,
{
    match msg.body()@ {
        TermView::Mapping(pairs) => {
            kind_is_the_text_under_the_key(msg.body()@, pairs, 0);
        },
        _ => {},
    }
}

/// A call without a usable reference is answered with a complaint, to its sender, and the server
/// waits on as it was.
pub proof fn bad_calls_are_refused<State, Call, Cast>(
    state: State,
    msg: Message,
    r: ServerStep<State, Call, Cast>,
)
    requires
        is_server_step(ServerPhase::Waiting(state), ServerEvent::Received(msg), r),
        gs_type(msg.body()@) == Some("call"@),
        number_of(msg.body()@, "ref"@) is None || number_of(msg.body()@, "ref"@) == Some(0u64),
    ensures
        r.phase == ServerPhase::Waiting(state),
        r.action is Receive,
        r.reply matches Some((to, complaint)) && to.pid == msg.sender() && complaint@
            == TermView::String("bad_call: missing ref_id"@),
{
}

/// What is decoded is handled, with the state the server had: a call as that of the process that
/// called, and what could not be decoded is not handled; a call is then answered with a complaint.
pub proof fn what_is_decoded_is_handled<State, Call, Cast>(
    state: State,
    from: engine::From,
    call: Option<Call>,
    cast: Option<Cast>,
    r: ServerStep<State, Call, Cast>,
    q: ServerStep<State, Call, Cast>,
)
    requires
        is_server_step(
            ServerPhase::DecodingCall { from, state },
            ServerEvent::DecodedCall(call),
            r,
        ),
        is_server_step(ServerPhase::DecodingCast(state), ServerEvent::DecodedCast(cast), q),
    ensures
        match call {
            Some(c) => {
                &&& r.reply is None
                &&& r.phase == (ServerPhase::<State>::HandlingCall { from })
                &&& r.action == (ServerAction::<State, Call, Cast>::HandleCall {
                    call: c,
                    from,
                    state,
                })
            },
            None => {
                &&& r.phase == ServerPhase::Waiting(state)
                &&& r.reply matches Some((to, complaint)) && to == from && complaint@
                    == TermView::String("bad_call: could not decode message"@)
            },
        },
        q.reply is None,
        match cast {
            Some(c) => q.action == (ServerAction::<State, Call, Cast>::HandleCast {
                cast: c,
                state,
            }),
            None => q.phase == ServerPhase::Waiting(state),
        },
{
}

/// A server goes on in the state that its handler left it: it waits in that state, or cleans up
/// with it for the reason that the handler gave; and it waits in the state that it was started in.
pub proof fn handlers_decide_the_state<State, Call, Cast>(
    phase: ServerPhase<State>,
    event: ServerEvent<State, Call, Cast>,
    r: ServerStep<State, Call, Cast>,
    state: State,
    reason: String,
    response: Term,
)
    requires
        can_happen(phase, event),
        is_server_step(phase, event, r),
    ensures
        event == ServerEvent::<State, Call, Cast>::Started(Ok(state)) || event == ServerEvent::<
            State,
            Call,
            Cast,
        >::HandledCall(CallReply::NoReply(state)) || event == ServerEvent::<
            State,
            Call,
            Cast,
        >::HandledCall(CallReply::Reply(response, state)) || event == ServerEvent::<
            State,
            Call,
            Cast,
        >::HandledCast(CastReply::NoReply(state)) || event == ServerEvent::<
            State,
            Call,
            Cast,
        >::HandledInfo(InfoReply::NoReply(state)) ==> r.phase == ServerPhase::Waiting(state)
            && r.action is Receive,
        event == ServerEvent::<State, Call, Cast>::HandledCall(
            CallReply::Stop(reason, response, state),
        ) || event == ServerEvent::<State, Call, Cast>::HandledCast(CastReply::Stop(reason, state))
            || event == ServerEvent::<State, Call, Cast>::HandledInfo(
            InfoReply::Stop(reason, state),
        ) ==> r.phase is Terminating && r.action is Terminate && r.action->Terminate_reason@
            == reason@ && r.action->Terminate_state == state,
        event is Closed ==> r.phase is Terminating && r.action is Terminate
            && r.action->Terminate_reason@ == "normal"@ && phase == ServerPhase::Waiting(
            r.action->Terminate_state,
        ),
{
}

/// Who called is who is answered: a step of a server that works on a call replies, if at all, to
/// the process and under the reference of that call; it replies with what the handler gave where
/// it gave something, and a step that works on nothing of the kind replies to nobody.
pub proof fn replies_go_to_the_caller<State, Call, Cast>(
    phase: ServerPhase<State>,
    event: ServerEvent<State, Call, Cast>,
    r: ServerStep<State, Call, Cast>,
)
    requires
        can_happen(phase, event),
        is_server_step(phase, event, r),
    ensures
        r.reply matches Some((to, _)) ==> match phase {
            ServerPhase::Waiting(_) => event matches ServerEvent::Received(msg) && to.pid
                == msg.sender(),
            ServerPhase::DecodingCall { from, .. } => to == from,
            ServerPhase::HandlingCall { from } => to == from,
            _ => false,
        },
        event matches ServerEvent::HandledCall(reply) ==> match reply {
            CallReply::Reply(response, _) => r.reply matches Some((_, sent)) && sent@ == response@,
            CallReply::Stop(_, response, _) => r.reply matches Some((_, sent)) && sent@
                == response@,
            CallReply::NoReply(_) => r.reply is None,
        },
{
}

/// A client's wait ends with a response only when its reply comes, with a time-out only when the
/// time is up, and otherwise only because the server cannot be reached any more: no other message
/// ends it.
pub proof fn only_its_reply_ends_the_wait(ref_id: u64, event: ClientEvent, r: ClientStep)
    requires
        is_client_step(ref_id, event, r),
    ensures
        r matches ClientStep::Done(Ok(_)) ==> (event matches ClientEvent::Received(msg) && gs_type(
            msg.body()@,
        ) == Some("reply"@) && number_of(msg.body()@, "ref"@) == Some(ref_id)),
        (r matches ClientStep::Done(Err(CallError::Timeout))) <==> event is TimedOut,
        (r matches ClientStep::Done(Err(CallError::ServerDead))) <==> event is Closed || (
        event matches ClientEvent::Sent(Err(_))),
        event matches ClientEvent::Received(msg) ==> (gs_type(msg.body()@) != Some("reply"@)
            || number_of(msg.body()@, "ref"@) != Some(ref_id) ==> r is Wait),
{
}

} // verus!
