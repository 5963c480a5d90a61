//! The C interface, on plain values.
use rebar::ffi::{
    rebar_msg_create, rebar_msg_data, rebar_msg_len, rebar_send, rebar_spawn, send_code,
    serve_command, CommandPoll, CommandStep, FfiCommand, RebarMsg, RebarPid, RebarRuntime, REBAR_ERR_INVALID_NAME, REBAR_ERR_NOT_FOUND, REBAR_ERR_NULL_PTR,
    REBAR_ERR_SEND_FAILED, REBAR_OK,
};
use rebar::process::{ProcessId, SendError};
use rebar::runtime::Runtime;
use rebar::term::Term;

fn message(data: &[u8]) -> RebarMsg {
    rebar_msg_create(Some(data), data.len()).unwrap()
}

fn pid(node_id: u64, local_id: u64) -> RebarPid {
    RebarPid { node_id, thread_id: 0, local_id }
}

#[test]
fn msg_create_and_read() {
    let data = b"hello world";
    let msg = message(data);
    let len = rebar_msg_len(Some(&msg));
    assert_eq!(len, data.len());
    assert_eq!(rebar_msg_data(Some(&msg)).unwrap().as_slice(), data);
}

#[test]
fn msg_empty_data() {
    let msg = rebar_msg_create(None, 0);
    assert!(msg.is_some());
    assert_eq!(rebar_msg_len(msg.as_ref()), 0);
    assert!(rebar_msg_create(None, 3).is_none());
    assert!(rebar_msg_data(None).is_none());
    assert_eq!(rebar_msg_len(None), 0);
}

#[test]
fn msg_large_data() {
    let size = 1024 * 1024;
    let data: Vec<u8> = (0..size).map(|i| (i % 256) as u8).collect();
    let msg = message(&data);
    assert_eq!(rebar_msg_len(Some(&msg)), size);
    assert_eq!(rebar_msg_data(Some(&msg)).unwrap(), &data);
}

#[test]
fn msg_data_ptr_stable() {
    let msg = message(b"stability check");
    let ptr1 = rebar_msg_data(Some(&msg)).unwrap().as_ptr();
    let ptr2 = rebar_msg_data(Some(&msg)).unwrap().as_ptr();
    assert_eq!(ptr1, ptr2);
}

#[test]
fn runtime_create_with_different_node_ids() {
    let rt1 = RebarRuntime::new(1);
    let rt2 = RebarRuntime::new(42);
    assert_eq!(rt1.node_id(), 1);
    assert_eq!(rt2.node_id(), 42);
}

#[test]
fn pid_components() {
    let pid = RebarPid {
        node_id: 7,
        thread_id: 0,
        local_id: 42,
    };
    assert_eq!(pid.node_id, 7);
    assert_eq!(pid.local_id, 42);

    let process_id = pid.to_process_id();
    assert_eq!(process_id.node_id(), 7);
    assert_eq!(process_id.local_id(), 42);

    let back = RebarPid::from_process_id(process_id);
    assert_eq!(back.node_id, 7);
    assert_eq!(back.local_id, 42);
}

#[test]
fn pid_zero_values() {
    let pid = RebarPid {
        node_id: 0,
        thread_id: 0,
        local_id: 0,
    };
    assert_eq!(pid.node_id, 0);
    assert_eq!(pid.local_id, 0);

    let process_id = pid.to_process_id();
    assert_eq!(process_id.node_id(), 0);
    assert_eq!(process_id.local_id(), 0);
}

#[test]
fn rebar_pid_is_copy() {
    fn assert_copy<T: Copy>() {}
    assert_copy::<RebarPid>();
}

#[test]
fn spawn_returns_valid_pid() {
    let mut rt = Runtime::new(1);
    let answer = Some(rt.spawn().self_pid());
    let pid_out = rebar_spawn(true, true, answer).unwrap();
    assert_eq!(pid_out.node_id, 1);
    assert!(pid_out.local_id > 0);
    assert_eq!(rebar_spawn(false, true, answer), Err(REBAR_ERR_NULL_PTR));
    assert_eq!(rebar_spawn(true, false, answer), Err(REBAR_ERR_NULL_PTR));
    assert_eq!(rebar_spawn(true, true, None), Err(REBAR_ERR_SEND_FAILED));
}

#[test]
fn send_to_invalid_pid_returns_error() {
    let rt = Runtime::new(1);
    let msg = message(b"nope");
    let (dest, payload) = rebar_send(pid(1, 999999), Some(&msg)).unwrap();
    assert_eq!(payload, Term::Binary(b"nope".to_vec()));
    let rc = send_code(Some(rt.send(dest, payload)));
    assert_eq!(rc, REBAR_ERR_SEND_FAILED);
    assert_eq!(send_code(None), REBAR_ERR_SEND_FAILED);
    assert_eq!(send_code(Some(Ok(()))), REBAR_OK);
    assert_eq!(
        send_code(Some(Err(SendError::ProcessDead(ProcessId::new(1, 0, 1))))),
        REBAR_ERR_SEND_FAILED
    );
    assert!(matches!(rebar_send(pid(1, 1), None), Err(REBAR_ERR_NULL_PTR)));
}

#[test]
fn register_and_whereis() {
    let mut rt = RebarRuntime::new(1);
    let name = b"my_service";
    let rc = rt.rebar_register(Some(name), pid(1, 42));
    assert_eq!(rc, REBAR_OK);

    let found = rt.rebar_whereis(Some(name), true).unwrap();
    assert_eq!(found.node_id, 1);
    assert_eq!(found.local_id, 42);
    assert_eq!(rt.rebar_whereis(Some(name), false), Err(REBAR_ERR_NULL_PTR));
    assert_eq!(rt.rebar_whereis(None, true), Err(REBAR_ERR_NULL_PTR));
}

#[test]
fn registry_works_after_normal_usage() {
    let mut rt = RebarRuntime::new(1);
    assert_eq!(rt.rebar_register(Some(b"svc"), pid(1, 1)), REBAR_OK);
    assert_eq!(rt.rebar_register(Some(b"svc"), pid(1, 2)), REBAR_OK);
    assert_eq!(rt.rebar_register(None, pid(1, 3)), REBAR_ERR_NULL_PTR);
    assert_eq!(rt.rebar_register(Some(&[0xff, 0xfe]), pid(1, 3)), REBAR_ERR_INVALID_NAME);
    assert_eq!(rt.rebar_whereis(Some(&[0xff, 0xfe]), true), Err(REBAR_ERR_INVALID_NAME));
    assert_eq!(rt.rebar_whereis(Some(b"svc"), true).unwrap().local_id, 2);
    let name = "na\u{ef}ve \u{25cf}".as_bytes();
    assert_eq!(rt.rebar_register(Some(name), pid(1, 4)), REBAR_OK);
    assert_eq!(rt.rebar_whereis(Some(name), true).unwrap().local_id, 4);
}

#[test]
fn send_named() {
    let mut rt = RebarRuntime::new(1);
    let name = b"worker";
    assert_eq!(rt.rebar_register(Some(name), pid(1, 7)), REBAR_OK);
    let msg = message(b"payload");
    let (dest, payload) = rt.rebar_send_named(Some(name), Some(&msg)).unwrap();
    assert_eq!(dest, ProcessId::new(1, 0, 7));
    assert_eq!(payload, Term::Binary(b"payload".to_vec()));
    assert!(matches!(rt.rebar_send_named(Some(name), None), Err(REBAR_ERR_NULL_PTR)));
    assert!(matches!(rt.rebar_send_named(Some(b"no"), Some(&msg)), Err(REBAR_ERR_NOT_FOUND)));
}

#[test]
fn whereis_not_found() {
    let rt = RebarRuntime::new(1);
    assert_eq!(rt.rebar_whereis(Some(b"nonexistent"), true), Err(REBAR_ERR_NOT_FOUND));
}

#[test]
fn the_thread_of_a_runtime_serves_commands() {
    let mut rt = Runtime::new(3);
    let pid = match serve_command(&mut rt, CommandPoll::Command(FfiCommand::Spawn)) {
        CommandStep::Spawned(context) => context.self_pid(),
        _ => panic!("did not spawn"),
    };
    assert_eq!(pid, ProcessId::new(3, 0, 1));
    assert!(rt.table().is_alive(&pid));
    let send = FfiCommand::Send { dest: ProcessId::new(3, 0, 9), payload: Term::Nil };
    assert!(matches!(
        serve_command(&mut rt, CommandPoll::Command(send)),
        CommandStep::Sent(Err(SendError::ProcessDead(p))) if p == ProcessId::new(3, 0, 9)
    ));
    match serve_command(&mut rt, CommandPoll::Empty) {
        CommandStep::Idle(d) => assert_eq!(d.as_nanos(), 100_000),
        _ => panic!("did not wait"),
    }
    assert!(matches!(
        serve_command(&mut rt, CommandPoll::Command(FfiCommand::Shutdown)),
        CommandStep::Stop
    ));
    assert!(matches!(serve_command(&mut rt, CommandPoll::Disconnected), CommandStep::Stop));
}
