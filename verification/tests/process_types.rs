//! Identities, messages and exit reasons.
use rebar::process::{ExitReason, Message, ProcessId, SendError};
use rebar::term::Term;
use std::collections::HashSet;

#[test]
fn process_id_equality() {
    let a = ProcessId::new(1, 0, 42);
    let b = ProcessId::new(1, 0, 42);
    assert_eq!(a, b);
}

#[test]
fn process_id_inequality_different_node() {
    assert_ne!(ProcessId::new(1, 0, 42), ProcessId::new(2, 0, 42));
}

#[test]
fn process_id_inequality_different_local() {
    assert_ne!(ProcessId::new(1, 0, 42), ProcessId::new(1, 0, 43));
}

#[test]
fn process_id_is_copy() {
    let a = ProcessId::new(1, 0, 42);
    let b = a;
    assert_eq!(a, b);
}

#[test]
fn process_id_display() {
    assert_eq!(ProcessId::new(1, 0, 42).to_string(), "<1.0.42>");
}

#[test]
fn process_id_hash_dedup() {
    let mut set = HashSet::new();
    set.insert(ProcessId::new(1, 0, 1));
    set.insert(ProcessId::new(1, 0, 1));
    assert_eq!(set.len(), 1);
}

#[test]
fn process_id_accessors() {
    let pid = ProcessId::new(5, 0, 99);
    assert_eq!(pid.node_id(), 5);
    assert_eq!(pid.local_id(), 99);
}

#[test]
fn process_id_debug() {
    let pid = ProcessId::new(1, 0, 1);
    let debug = format!("{:?}", pid);
    assert!(debug.contains("ProcessId"));
}

#[test]
fn message_creation() {
    let from = ProcessId::new(1, 0, 1);
    let payload = Term::from_text("hello");
    let msg = Message::new(from, payload.clone());
    assert_eq!(msg.from(), from);
    assert_eq!(*msg.payload(), payload);
    assert!(msg.timestamp().unwrap() > 0);
}

#[test]
fn message_with_map_payload() {
    let from = ProcessId::new(1, 0, 1);
    let payload = Term::Mapping(vec![(
        Term::from_text("key"),
        Term::from_u64(42),
    )]);
    let msg = Message::new(from, payload.clone());
    assert_eq!(*msg.payload(), payload);
}

#[test]
fn message_with_nil_payload() {
    let msg = Message::new(ProcessId::new(1, 0, 1), Term::Nil);
    assert_eq!(*msg.payload(), Term::Nil);
}

#[test]
fn message_with_binary_payload() {
    let data = Term::Binary(vec![0xDE, 0xAD, 0xBE, 0xEF]);
    let msg = Message::new(ProcessId::new(1, 0, 1), data.clone());
    assert_eq!(*msg.payload(), data);
}

#[test]
fn message_with_nested_array() {
    let payload = Term::Array(vec![
        Term::from_u64(1),
        Term::Array(vec![Term::from_u64(2)]),
    ]);
    let msg = Message::new(ProcessId::new(1, 0, 1), payload.clone());
    assert_eq!(*msg.payload(), payload);
}

#[test]
fn message_new_internal_has_no_timestamp() {
    let msg = Message::new_internal(ProcessId::new(1, 0, 1), Term::Nil);
    assert!(msg.timestamp().is_none());
    assert_eq!(msg.from(), ProcessId::new(1, 0, 1));
}

#[test]
fn exit_reason_normal_is_normal() {
    assert!(ExitReason::Normal.is_normal());
}

#[test]
fn exit_reason_abnormal_is_not_normal() {
    assert!(!ExitReason::Abnormal("panicked".into()).is_normal());
}

#[test]
fn exit_reason_kill_is_not_normal() {
    assert!(!ExitReason::Kill.is_normal());
}

#[test]
fn exit_reason_linked_exit() {
    let reason = ExitReason::LinkedExit(
        ProcessId::new(1, 0, 5),
        Box::new(ExitReason::Abnormal("crash".into())),
    );
    assert!(!reason.is_normal());
}

#[test]
fn send_error_display() {
    let err = SendError::ProcessDead(ProcessId::new(1, 0, 5));
    let msg = err.to_string();
    assert!(msg.contains("1") && msg.contains("5"));
}

#[test]
fn process_id_is_two_arg() {
    let pid = ProcessId::new(1, 0, 42);
    assert_eq!(pid.node_id(), 1);
    assert_eq!(pid.local_id(), 42);

    let pid2 = ProcessId::new(0, 0, 0);
    assert_eq!(pid2.node_id(), 0);
    assert_eq!(pid2.local_id(), 0);
}

#[test]
fn process_id_is_copy_send_sync() {
    fn assert_copy_send_sync<T: Copy + Send + Sync>() {}
    assert_copy_send_sync::<ProcessId>();

    // Verify Copy works in practice
    let a = ProcessId::new(1, 0, 1);
    let b = a;
    assert_eq!(a, b);
}

#[test]
fn send_error_variants_exhaustive() {
    let errors: Vec<SendError> = vec![
        SendError::ProcessDead(ProcessId::new(1, 0, 1)),
        SendError::MailboxFull(ProcessId::new(1, 0, 2)),
        SendError::NodeUnreachable(99),
    ];

    for err in &errors {
        match err {
            SendError::ProcessDead(pid) => {
                let _ = pid;
            }
            SendError::MailboxFull(pid) => {
                let _ = pid;
            }
            SendError::NodeUnreachable(node) => {
                let _ = node;
            }
            other => panic!("unexpected {:?}", other),
        }
    }
}

#[test]
fn numbers_of_all_sizes_are_written_in_decimal() {
    let pid = ProcessId::new(u64::MAX, u16::MAX, 0);
    assert_eq!(pid.to_string(), "<18446744073709551615.65535.0>");
    assert_eq!(ProcessId::new(10, 100, 1009).to_string(), "<10.100.1009>");
}

#[test]
fn a_linked_exit_is_cloned_whole() {
    let reason = ExitReason::LinkedExit(
        ProcessId::new(1, 0, 5),
        Box::new(ExitReason::Abnormal("crash".into())),
    );
    assert_eq!(format!("{:?}", reason.clone()), format!("{:?}", reason));
}
