//! Servers that answer calls and take casts.
use rebar::counter::Counter;
use rebar::gen_server::engine;
use rebar::gen_server::engine::{
    begin_call, cast_from_runtime, end_call, match_reply, receive, reply_from_runtime,
    start_named, supervised_exit, CallError, CallReply, CastReply, GenServerContext, GenServerRef,
    Incoming, InfoReply, FIRST_CALL_REF,
};
use rebar::gen_server::envelope::{
    call_envelope, extract_field, extract_gs_type, extract_number, reply_envelope,
};
use rebar::gen_server::serving::{
    client_step, decoded_reply, server_step, told_result, ClientEvent, ClientStep, ServerAction,
    ServerEvent, ServerPhase,
};
use rebar::gen_server::typed;
use rebar::process::mailbox::MailboxRx;
use rebar::process::table::ProcessTable;
use rebar::process::{ExitReason, Message, ProcessId, SendError};
use rebar::router::{LocalRouter, MessageRouter};
use rebar::runtime::{ProcessContext, Runtime};
use rebar::supervisor::engine::ChildEntry;
use rebar::supervisor::ChildSpec;
use rebar::term::Term;
use std::rc::Rc;

/// A runtime with a server that counts, and the references of its calls.
struct World {
    rt: Runtime<LocalRouter>,
    refs: Counter,
    server: ProcessId,
    inbox: ProcessContext,
    phase: ServerPhase<u64>,
    last_info: Option<Term>,
    stopped: Option<String>,
    exit: Option<ExitReason>,
}

/// A request that the server knows.
fn decode(request: Term) -> Option<String> {
    match request.as_str() {
        Some(text) if text != "unknown" => Some(text.to_string()),
        _ => None,
    }
}

fn handle_call(request: &str, state: u64) -> CallReply<u64> {
    match request {
        "get" => CallReply::Reply(Term::from_u64(state), state),
        "increment" => CallReply::Reply(Term::from_u64(state + 1), state + 1),
        "stop" => CallReply::Stop("requested".into(), Term::from_text("bye"), state),
        _ => CallReply::NoReply(state),
    }
}

fn handle_cast(request: &str, state: u64) -> CastReply<u64> {
    match request {
        "increment" => CastReply::NoReply(state + 1),
        "stop" => CastReply::Stop("cast_stop".into(), state),
        _ => CastReply::NoReply(state),
    }
}

impl World {
    fn new(initial: u64) -> World {
        let mut rt = Runtime::new(1);
        let context = rt.spawn();
        World::serving(rt, context, initial)
    }

    /// The server as a process that is there already.
    fn serving(rt: Runtime<LocalRouter>, context: ProcessContext, initial: u64) -> World {
        let mut world = World {
            rt,
            refs: Counter::new(FIRST_CALL_REF),
            server: context.self_pid(),
            inbox: context,
            phase: ServerPhase::Starting,
            last_info: None,
            stopped: None,
            exit: None,
        };
        world.happens(ServerEvent::Started(Ok(initial)));
        world
    }

    fn state(&self) -> u64 {
        match self.phase {
            ServerPhase::Waiting(state) => state,
            _ => panic!("does not wait"),
        }
    }

    fn answer(&self, from: engine::From, response: Term) {
        let payload = reply_envelope(from.ref_id, response);
        let _ = self.inbox.send(&self.rt, from.pid, payload);
    }

    /// Lets the server work until it waits again, or has ended.
    fn happens(&mut self, event: ServerEvent<u64, String, String>) {
        let mut next = Some(event);
        while let Some(event) = next.take() {
            let phase = std::mem::replace(&mut self.phase, ServerPhase::Ended);
            let step = server_step(phase, event);
            self.phase = step.phase;
            if let Some((from, response)) = step.reply {
                self.answer(from, response);
            }
            next = match step.action {
                ServerAction::Receive => None,
                ServerAction::DecodeCall(request) => {
                    Some(ServerEvent::DecodedCall(decode(request)))
                }
                ServerAction::DecodeCast(request) => {
                    Some(ServerEvent::DecodedCast(decode(request)))
                }
                ServerAction::HandleCall { call, state, .. } => {
                    Some(ServerEvent::HandledCall(handle_call(&call, state)))
                }
                ServerAction::HandleCast { cast, state } => {
                    Some(ServerEvent::HandledCast(handle_cast(&cast, state)))
                }
                ServerAction::HandleInfo { payload, state } => {
                    let stop = payload.as_str() == Some("halt");
                    self.last_info = Some(payload);
                    if stop {
                        Some(ServerEvent::HandledInfo(InfoReply::Stop("halted".into(), state)))
                    } else {
                        Some(ServerEvent::HandledInfo(InfoReply::NoReply(state)))
                    }
                }
                ServerAction::Terminate { reason, .. } => {
                    self.stopped = Some(reason);
                    Some(ServerEvent::Terminated)
                }
                ServerAction::Exit(reason) => {
                    self.exit = Some(reason);
                    self.rt.finished(self.server, ExitReason::Normal);
                    None
                }
            };
        }
    }

    /// Lets the server take all its messages.
    fn serve(&mut self) {
        while self.exit.is_none() {
            let Some(msg) = self.inbox.try_recv() else { break };
            self.happens(ServerEvent::Received(msg));
        }
    }

    fn call(&mut self, request: Term) -> Result<Term, CallError> {
        let mut pending = begin_call(self.rt.table_mut(), &mut self.refs);
        let payload = call_envelope(pending.ref_id, request);
        let mut event = ClientEvent::Sent(self.rt.send_from(pending.pid, self.server, payload));
        let result = loop {
            match client_step(pending.ref_id, event) {
                ClientStep::Done(result) => break result,
                ClientStep::Wait => {
                    self.serve();
                    event = match pending.mailbox.try_recv() {
                        Some(msg) => ClientEvent::Received(msg),
                        None => ClientEvent::TimedOut,
                    };
                }
            }
        };
        end_call(self.rt.table_mut(), pending.pid);
        result
    }

    fn cast(&mut self, request: Term) -> Result<(), SendError> {
        cast_from_runtime(&self.rt, self.server, request)
    }
}

#[test]
fn basic_call() {
    let mut world = World::new(0);
    let reply = world.call(Term::from_text("increment")).unwrap();
    assert_eq!(reply.as_u64().unwrap(), 1);
    let reply = world.call(Term::from_text("increment")).unwrap();
    assert_eq!(reply.as_u64().unwrap(), 2);
    assert_eq!(world.rt.table().len(), 1);
}

#[test]
fn basic_cast() {
    let mut world = World::new(0);
    world.cast(Term::from_text("increment")).unwrap();
    let reply = world.call(Term::from_text("get")).unwrap();
    assert_eq!(reply.as_u64().unwrap(), 1);
}

#[test]
fn call_timeout() {
    let mut world = World::new(0);
    let result = world.call(Term::from_text("later"));
    assert!(matches!(result, Err(CallError::Timeout)));
}

#[test]
fn handle_info() {
    let mut world = World::new(0);
    world.rt.send(world.server, Term::from_text("raw_info")).unwrap();
    world.serve();
    assert_eq!(world.last_info.as_ref().unwrap().as_str().unwrap(), "raw_info");
}

#[test]
fn stop_from_call() {
    let mut world = World::new(0);
    let reply = world.call(Term::from_text("stop")).unwrap();
    assert_eq!(reply.as_str().unwrap(), "bye");
    assert!(!world.rt.table().is_alive(&world.server));
    assert_eq!(world.stopped.as_deref(), Some("requested"));
    let result = world.call(Term::from_text("get"));
    assert!(matches!(result, Err(CallError::ServerDead)));
}

#[test]
fn stop_from_cast() {
    let mut world = World::new(0);
    world.cast(Term::from_text("stop")).unwrap();
    world.serve();
    assert!(!world.rt.table().is_alive(&world.server));
}

#[test]
fn named_start() {
    let mut rt = Runtime::new(1);
    let (context, named) = start_named(&mut rt, "my_counter".into());
    let pid = named.unwrap();
    let mut world = World::serving(rt, context, 0);
    assert_eq!(world.rt.table().whereis("my_counter"), Some(pid));
    assert_eq!(world.call(Term::from_text("get")).unwrap().as_u64(), Some(0));
}

#[test]
fn deferred_reply() {
    let mut table = ProcessTable::new(1, 0);
    let mut refs = Counter::new(FIRST_CALL_REF);
    let mut pending = begin_call(&mut table, &mut refs);
    let server = table.allocate_pid();
    let from = engine::From { pid: pending.pid, ref_id: pending.ref_id };
    let ctx = GenServerContext::new(server, Rc::new(LocalRouter::new()));
    assert!(pending.mailbox.try_recv().is_none());
    ctx.reply(&table, &from, Term::from_text("deferred_result")).unwrap();
    let msg = pending.mailbox.try_recv().unwrap();
    let reply = match_reply(msg.payload(), pending.ref_id).unwrap();
    assert_eq!(reply.as_str().unwrap(), "deferred_result");
}

#[test]
fn cast_from_runtime_test() {
    let mut world = World::new(10);
    cast_from_runtime(&world.rt, world.server, Term::from_text("increment")).unwrap();
    cast_from_runtime(&world.rt, world.server, Term::from_text("increment")).unwrap();
    let reply = world.call(Term::from_text("get")).unwrap();
    assert_eq!(reply.as_u64().unwrap(), 12);
}

#[test]
fn init_failure() {
    let mut world = World::new(0);
    world.phase = ServerPhase::Starting;
    world.happens(ServerEvent::Started(Err("init failed".to_string())));
    assert!(matches!(world.exit, Some(ExitReason::Abnormal(ref why)) if why == "init failed"));
    assert!(world.stopped.is_none());
    assert!(!world.rt.table().is_alive(&world.server));
    let result = world.call(Term::from_text("get"));
    assert!(matches!(result, Err(CallError::ServerDead)));
}

#[test]
fn gen_server_context_self_pid() {
    let pid = ProcessId::new(1, 0, 7);
    let table = ProcessTable::new(1, 0);
    let ctx = GenServerContext::new(pid, Rc::new(LocalRouter::new()));
    assert_eq!(ctx.self_pid(), pid);
    let nobody = ProcessId::new(1, 0, 99);
    let cast = ctx.cast(&table, nobody, Term::Nil);
    assert!(matches!(cast, Err(SendError::ProcessDead(p)) if p == nobody));
    assert!(ctx.send_info(&table, nobody, Term::Nil).is_err());
}

#[test]
fn gen_server_call_error_display() {
    assert_eq!(CallError::Timeout.to_string(), "call timed out");
    assert_eq!(CallError::ServerDead.to_string(), "server is dead");
}

#[test]
fn mod_call_error_display() {
    let err = typed::CallError::Timeout;
    assert!(err.to_string().contains("timeout"));
    let err = typed::CallError::ServerDead;
    assert!(err.to_string().contains("dead"));
}

#[test]
fn call_error_has_timeout_and_server_dead_variants() {
    let err = typed::CallError::Timeout;
    match err {
        typed::CallError::Timeout => {}
        typed::CallError::ServerDead => {}
    }
}

#[test]
fn gen_server_context_has_pid() {
    let ctx: typed::GenServerContext<LocalRouter> =
        typed::GenServerContext::new(ProcessId::new(1, 0, 5));
    assert_eq!(ctx.self_pid(), ProcessId::new(1, 0, 5));
    let table = ProcessTable::new(1, 0);
    assert!(ctx.send(&table, ProcessId::new(1, 0, 6), Term::Nil).is_err());
}

#[test]
fn gen_server_context_is_send() {
    /// A router without anything in it.
    struct Nowhere;
    impl MessageRouter for Nowhere {
        fn route(
            &self,
            _: &ProcessTable,
            _: ProcessId,
            to: ProcessId,
            _: Term,
        ) -> Result<(), SendError> {
            Err(SendError::NodeUnreachable(to.node_id()))
        }
    }
    fn assert_send<T: Send>() {}
    assert_send::<typed::GenServerContext<Nowhere>>();
}

#[test]
fn raw_malformed_call_envelope() {
    let mut world = World::new(0);
    let malformed = || {
        Term::Mapping(vec![
            (Term::from_text("$gs"), Term::from_text("call")),
            (Term::from_text("req"), Term::from_text("increment")),
        ])
    };
    world.rt.send(world.server, malformed()).unwrap();
    world.serve();
    let reply = world.call(Term::from_text("get")).unwrap();
    assert_eq!(reply.as_u64().unwrap(), 0);

    let mut pending = begin_call(world.rt.table_mut(), &mut world.refs);
    world.rt.send_from(pending.pid, world.server, malformed()).unwrap();
    world.serve();
    let msg = pending.mailbox.try_recv().unwrap();
    let text = extract_field(msg.payload(), "val").unwrap();
    assert_eq!(text.as_str().unwrap(), "bad_call: missing ref_id");
    assert!(world.exit.is_none());
}

#[test]
fn child_entry_propagates_abnormal_exit() {
    let told = supervised_exit(Some(ExitReason::Abnormal("init failed".to_string())));
    assert!(matches!(told, ExitReason::Abnormal(why) if why == "init failed"));
    let untold = supervised_exit(None);
    assert!(matches!(
        untold,
        ExitReason::Abnormal(why) if why == "process dropped without sending exit reason"
    ));
}

#[test]
fn child_entry_propagates_normal_exit() {
    assert!(supervised_exit(Some(ExitReason::Normal)).is_normal());
}

#[test]
fn envelopes_read_back_what_was_put_in() {
    let call = call_envelope(9, Term::from_text("question"));
    assert_eq!(extract_gs_type(&call), Some("call"));
    assert_eq!(extract_number(&call, "ref"), Some(9));
    assert_eq!(extract_field(&call, "req").unwrap().as_str(), Some("question"));
    let reply = reply_envelope(9, Term::from_text("answer"));
    assert_eq!(match_reply(&reply, 9).unwrap().as_str(), Some("answer"));
    assert!(match_reply(&reply, 8).is_none());
    assert!(match_reply(&call, 9).is_none());
}

#[test]
fn stray_replies_change_nothing() {
    let mut world = World::new(3);
    let stray = reply_envelope(77, Term::from_u64(1));
    let from = ProcessId::new(1, 0, 0);
    world.rt.table().send(world.server, Message::new_internal(from, stray)).unwrap();
    world.serve();
    assert_eq!(world.state(), 3);
    assert!(world.last_info.is_none());
}

#[test]
fn a_mailbox_without_senders_ends_a_server_normally() {
    let mut world = World::new(5);
    world.happens(ServerEvent::Closed);
    assert_eq!(world.stopped.as_deref(), Some("normal"));
    assert!(matches!(world.exit, Some(ExitReason::Normal)));
}

#[test]
fn a_request_that_cannot_be_decoded_is_answered_with_a_complaint() {
    let mut world = World::new(5);
    let reply = world.call(Term::from_text("unknown")).unwrap();
    assert_eq!(reply.as_str(), Some("bad_call: could not decode message"));
    world.cast(Term::from_text("unknown")).unwrap();
    world.serve();
    assert_eq!(world.state(), 5);
}

#[test]
fn stop_from_info() {
    let mut world = World::new(5);
    world.rt.send(world.server, Term::from_text("halt")).unwrap();
    world.serve();
    assert_eq!(world.stopped.as_deref(), Some("halted"));
    assert!(matches!(world.exit, Some(ExitReason::Normal)));
}

#[test]
fn a_client_without_senders_has_a_dead_server() {
    assert!(matches!(
        client_step(1, ClientEvent::Closed),
        ClientStep::Done(Err(CallError::ServerDead))
    ));
    assert!(matches!(decoded_reply::<u8>(None), Err(CallError::ServerDead)));
    assert!(matches!(decoded_reply(Some(3u8)), Ok(3)));
    assert!(matches!(told_result(None), Err(CallError::ServerDead)));
    assert!(matches!(told_result(Some(Err(CallError::Timeout))), Err(CallError::Timeout)));
    assert!(matches!(told_result(Some(Ok(Term::Nil))), Ok(Term::Nil)));
}

#[test]
fn a_reference_reaches_its_server() {
    let mut table = ProcessTable::new(1, 0);
    let mut refs = Counter::new(FIRST_CALL_REF);
    let (server, mut inbox) = typed::open_server(&mut table);
    let pending = begin_call(&mut table, &mut refs);
    let router = Rc::new(LocalRouter::new());
    let server_ref = GenServerRef::new(server, router).clone();
    assert_eq!(server_ref.pid(), server);
    server_ref.cast(&table, Term::from_text("increment")).unwrap();
    server_ref.send_call(&table, &pending, Term::from_text("get")).unwrap();
    match receive(&inbox.try_recv().unwrap()) {
        Incoming::Cast { request } => assert_eq!(request.as_str(), Some("increment")),
        _ => panic!("not a cast"),
    }
    match receive(&inbox.try_recv().unwrap()) {
        Incoming::Call { from, request } => {
            assert_eq!(from, engine::From { pid: pending.pid, ref_id: pending.ref_id });
            assert_eq!(request.as_str(), Some("get"));
        }
        _ => panic!("not a call"),
    }
}

/// A server behind a reference.
struct Referenced {
    table: ProcessTable,
    refs: Counter,
    server: GenServerRef<LocalRouter>,
    context: GenServerContext<LocalRouter>,
    inbox: MailboxRx,
    phase: ServerPhase<u64>,
}

impl Referenced {
    fn new() -> Referenced {
        let mut table = ProcessTable::new(1, 0);
        let (pid, inbox) = typed::open_server(&mut table);
        let router = Rc::new(LocalRouter::new());
        Referenced {
            table,
            refs: Counter::new(FIRST_CALL_REF),
            server: GenServerRef::new(pid, router.clone()),
            context: GenServerContext::new(pid, router),
            inbox,
            phase: ServerPhase::Waiting(0),
        }
    }

    /// Lets the server take all its messages.
    fn serve(&mut self) {
        while let Some(msg) = self.inbox.try_recv() {
            let mut event: ServerEvent<u64, String, String> = ServerEvent::Received(msg);
            loop {
                let phase = std::mem::replace(&mut self.phase, ServerPhase::Ended);
                let step = server_step(phase, event);
                self.phase = step.phase;
                if let Some((from, response)) = step.reply {
                    self.context.reply(&self.table, &from, response).unwrap();
                }
                event = match step.action {
                    ServerAction::DecodeCall(request) => ServerEvent::DecodedCall(decode(request)),
                    ServerAction::DecodeCast(request) => ServerEvent::DecodedCast(decode(request)),
                    ServerAction::HandleCall { call, state, .. } => {
                        ServerEvent::HandledCall(handle_call(&call, state))
                    }
                    ServerAction::HandleCast { cast, state } => {
                        ServerEvent::HandledCast(handle_cast(&cast, state))
                    }
                    _ => break,
                };
            }
        }
    }

    fn call(&mut self, request: &str) -> Result<u64, CallError> {
        let mut call = begin_call(&mut self.table, &mut self.refs);
        let request = Term::from_text(request);
        let mut event = ClientEvent::Sent(self.server.send_call(&self.table, &call, request));
        loop {
            match client_step(call.ref_id, event) {
                ClientStep::Done(Ok(reply)) => return decoded_reply(reply.as_u64()),
                ClientStep::Done(Err(e)) => return Err(e),
                ClientStep::Wait => {
                    self.serve();
                    event = match call.mailbox.try_recv() {
                        Some(msg) => ClientEvent::Received(msg),
                        None => ClientEvent::TimedOut,
                    };
                }
            }
        }
    }
}

#[test]
fn spawn_gen_server_typed_call() {
    let mut world = Referenced::new();
    world.server.cast(&world.table, Term::from_text("increment")).unwrap();
    assert!(matches!(world.call("get"), Ok(1)));
    assert!(matches!(world.call("increment"), Ok(2)));
}

#[test]
fn gen_server_ref_clone() {
    let mut world = Referenced::new();
    let cloned = world.server.clone();
    assert_eq!(world.server.pid(), cloned.pid());

    cloned.cast(&world.table, Term::from_text("increment")).unwrap();
    assert!(matches!(world.call("get"), Ok(1)));
}

#[test]
fn child_entry_creates_supervised() {
    let entry = ChildEntry::new(ChildSpec::new("counter"), handle_call);
    assert_eq!(entry.spec.id, "counter");
}

#[test]
fn a_runtime_casts_and_replies() {
    let mut rt = Runtime::new(4);
    let (mut context, named) = start_named(&mut rt, "svc".to_string());
    let pid = context.self_pid();
    assert_eq!(named.unwrap(), pid);
    let (_other, again) = start_named(&mut rt, "svc".to_string());
    assert!(again.is_err());
    assert_eq!(rt.table().len(), 2);
    cast_from_runtime(&rt, pid, Term::from_text("increment")).unwrap();
    let msg = context.try_recv().unwrap();
    assert_eq!(msg.from(), ProcessId::new(4, 0, 0));
    assert_eq!(extract_gs_type(msg.payload()), Some("cast"));
    let from = engine::From { pid, ref_id: 6 };
    reply_from_runtime(&rt, &from, Term::from_u64(1)).unwrap();
    let msg = context.try_recv().unwrap();
    assert_eq!(match_reply(msg.payload(), 6).unwrap().as_u64(), Some(1));
}

#[test]
fn a_typed_server_lives_and_leaves() {
    let mut seen = Vec::new();
    let mut phase = typed::TypedPhase::Starting;
    let happenings: Vec<typed::TypedHappening<u8, u8, u8>> = vec![
        typed::TypedHappening::Started(true),
        typed::TypedHappening::Looked {
            call: typed::Channel::Empty,
            cast: typed::Channel::Item(2),
            info: typed::Channel::Item(3),
        },
        typed::TypedHappening::Handled,
        typed::TypedHappening::Looked {
            call: typed::Channel::Closed,
            cast: typed::Channel::Item(2),
            info: typed::Channel::Empty,
        },
        typed::TypedHappening::Terminated,
    ];
    for happening in happenings {
        let (next, action) = typed::typed_step(phase, happening);
        phase = next;
        seen.push(match action {
            typed::TypedAction::Look => "look",
            typed::TypedAction::HandleCall(_) => "call",
            typed::TypedAction::HandleCast(_) => "cast",
            typed::TypedAction::HandleInfo(_) => "info",
            typed::TypedAction::Terminate => "terminate",
            typed::TypedAction::Leave => "leave",
        });
    }
    assert_eq!(seen, vec!["look", "cast", "look", "terminate", "leave"]);
    let failed: (typed::TypedPhase, typed::TypedAction<u8, u8, u8>) =
        typed::typed_step(typed::TypedPhase::Starting, typed::TypedHappening::Started(false));
    assert!(matches!(failed.1, typed::TypedAction::Leave));
}

#[test]
fn calls_are_served_before_casts() {
    let event = typed::next_event(
        typed::Channel::Item(1),
        typed::Channel::Item(2),
        typed::Channel::Item(3),
    );
    assert!(matches!(event, typed::TypedEvent::Call(1)));
    let event: typed::TypedEvent<u8, u8, u8> = typed::next_event(
        typed::Channel::Empty,
        typed::Channel::Empty,
        typed::Channel::Item(3),
    );
    assert!(matches!(event, typed::TypedEvent::Info(3)));
}
