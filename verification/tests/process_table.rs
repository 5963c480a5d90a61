//! The table of processes, and the router over it.
use rebar::process::mailbox::Mailbox;
use rebar::process::table::{new_global_registry, ProcessHandle, ProcessTable};
use rebar::process::{Message, ProcessId, RegistryError, SendError};
use rebar::router::{LocalRouter, MessageRouter};
use rebar::term::Term;

#[test]
fn allocate_pid_increments() {
    let mut table = ProcessTable::new(1, 0);
    let pid1 = table.allocate_pid();
    let pid2 = table.allocate_pid();
    assert_eq!(pid1.node_id(), 1);
    assert_eq!(pid1.local_id(), 1);
    assert_eq!(pid2.local_id(), 2);
}

#[test]
fn allocate_pid_node_id_preserved() {
    let mut table = ProcessTable::new(42, 0);
    let pid = table.allocate_pid();
    assert_eq!(pid.node_id(), 42);
}

#[test]
fn insert_and_lookup() {
    let mut table = ProcessTable::new(1, 0);
    let pid = table.allocate_pid();
    let (tx, _rx) = Mailbox::unbounded();
    table.insert(pid, ProcessHandle::new(tx));
    assert!(table.is_alive(&pid));
}

#[test]
fn lookup_missing_returns_none() {
    let table = ProcessTable::new(1, 0);
    assert!(!table.is_alive(&ProcessId::new(1, 0, 999)));
}

#[test]
fn remove_process() {
    let mut table = ProcessTable::new(1, 0);
    let pid = table.allocate_pid();
    let (tx, _rx) = Mailbox::unbounded();
    table.insert(pid, ProcessHandle::new(tx));
    table.remove(&pid);
    assert!(!table.is_alive(&pid));
}

#[test]
fn remove_nonexistent_is_noop() {
    let mut table = ProcessTable::new(1, 0);
    assert!(table.remove(&ProcessId::new(1, 0, 999)).is_none());
}

#[test]
fn send_to_process() {
    let mut table = ProcessTable::new(1, 0);
    let pid = table.allocate_pid();
    let (tx, _rx) = Mailbox::unbounded();
    table.insert(pid, ProcessHandle::new(tx));
    let msg = Message::new(ProcessId::new(1, 0, 0), Term::Nil);
    assert!(table.send(pid, msg).is_ok());
}

#[test]
fn table_send_to_dead_process_returns_error() {
    let table = ProcessTable::new(1, 0);
    let msg = Message::new(ProcessId::new(1, 0, 0), Term::Nil);
    assert!(table.send(ProcessId::new(1, 0, 999), msg).is_err());
}

#[test]
fn process_count() {
    let mut table = ProcessTable::new(1, 0);
    assert_eq!(table.len(), 0);
    let pid = table.allocate_pid();
    let (tx, _rx) = Mailbox::unbounded();
    table.insert(pid, ProcessHandle::new(tx));
    assert_eq!(table.len(), 1);
}

#[test]
fn is_empty() {
    let mut table = ProcessTable::new(1, 0);
    assert!(table.is_empty());
    let pid = table.allocate_pid();
    let (tx, _rx) = Mailbox::unbounded();
    table.insert(pid, ProcessHandle::new(tx));
    assert!(!table.is_empty());
}

#[test]
fn allocate_pid_uses_thread_id() {
    let mut table = ProcessTable::new(1, 5);
    let pid = table.allocate_pid();
    assert_eq!(pid.thread_id(), 5);
}

#[test]
fn names_stand_for_the_living() {
    let mut table = ProcessTable::new(1, 0);
    let pid = table.allocate_pid();
    let ghost = ProcessId::new(1, 0, 77);
    let error = table.register_name("svc".to_string(), ghost).unwrap_err();
    assert!(matches!(error, RegistryError::ProcessNotFound(p) if p == ghost));
    let (tx, _rx) = Mailbox::unbounded();
    table.insert(pid, ProcessHandle::new(tx));
    table.register_name("svc".to_string(), pid).unwrap();
    assert_eq!(table.whereis("svc"), Some(pid));
    let error = table.register_name("svc".to_string(), pid).unwrap_err();
    assert!(matches!(error, RegistryError::NameAlreadyRegistered(n) if n == "svc"));
    assert!(table.kill(&pid));
    assert!(!table.kill(&pid));
    assert_eq!(table.whereis("svc"), None);
    let error = table.unregister_name("svc").unwrap_err();
    assert!(matches!(error, RegistryError::NameNotFound(n) if n == "svc"));
}

#[test]
fn global_names_are_shared_between_tables() {
    let shared = new_global_registry();
    let mut one = ProcessTable::new(1, 0).with_global_registry(shared.clone());
    let two = ProcessTable::new(1, 1).with_global_registry(shared);
    let pid = one.allocate_pid();
    one.register_global("everywhere".to_string(), pid).unwrap();
    assert_eq!(two.whereis("everywhere"), Some(pid));
    assert!(two.register_global("everywhere".to_string(), pid).is_err());
    assert_eq!(two.unregister_global("everywhere").unwrap(), pid);
    assert_eq!(one.whereis("everywhere"), None);
    assert!(one.unregister_global("everywhere").is_err());
    let alone = ProcessTable::new(2, 0);
    assert!(alone.register_global("x".to_string(), pid).is_err());
}

#[test]
fn process_table_is_send_sync() {
    fn assert_send_sync<T: Send + Sync>() {}
    assert_send_sync::<ProcessTable>();
}

#[test]
fn local_router_delivers_locally() {
    let mut table = ProcessTable::new(1, 0);
    let pid = table.allocate_pid();
    let (tx, mut rx) = Mailbox::unbounded();
    table.insert(pid, ProcessHandle::new(tx));

    let router = LocalRouter::new();
    let from = ProcessId::new(1, 0, 0);
    router
        .route(&table, from, pid, Term::from_text("hello"))
        .unwrap();

    let msg = rx.try_recv().unwrap();
    assert_eq!(msg.payload().as_str().unwrap(), "hello");
}

#[test]
fn local_router_rejects_unknown_pid() {
    let table = ProcessTable::new(1, 0);
    let router = LocalRouter::new();
    let from = ProcessId::new(1, 0, 0);
    let dead_pid = ProcessId::new(1, 0, 999);

    let result = router.route(&table, from, dead_pid, Term::Nil);
    assert!(matches!(result, Err(SendError::ProcessDead(_))));
}

#[test]
fn the_processes_can_be_listed() {
    let mut table = ProcessTable::new(1, 0);
    let mut expected = Vec::new();
    for _ in 0..3 {
        let pid = table.allocate_pid();
        let (tx, _rx) = Mailbox::unbounded();
        table.insert(pid, ProcessHandle::new(tx));
        expected.push(pid);
    }
    let gone = expected.remove(1);
    assert!(table.get_exists(&gone));
    table.remove(&gone);
    assert!(!table.get_exists(&gone));
    let mut listed = table.list_pids();
    listed.sort_by_key(|p| p.local_id());
    assert_eq!(listed, expected);
}
