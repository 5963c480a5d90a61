//! Mailboxes.
use rebar::process::mailbox::Mailbox;
use rebar::process::{Message, ProcessId, SendError};
use rebar::term::Term;

#[test]
fn unbounded_send_receive() {
    let (tx, mut rx) = Mailbox::unbounded();
    let msg = Message::new(ProcessId::new(1, 0, 1), Term::Nil);
    tx.send(msg).unwrap();
    let received = rx.try_recv().unwrap();
    assert_eq!(received.from(), ProcessId::new(1, 0, 1));
}

#[test]
fn bounded_capacity_respected() {
    let (tx, _rx) = Mailbox::bounded(1);
    let msg1 = Message::new(ProcessId::new(1, 0, 1), Term::Nil);
    let msg2 = Message::new(ProcessId::new(1, 0, 2), Term::Nil);
    tx.send(msg1).unwrap();
    assert!(tx.try_send(msg2).is_err());
}



#[test]
fn multiple_messages_fifo() {
    let (tx, mut rx) = Mailbox::unbounded();
    for i in 0..5u64 {
        tx.send(Message::new(
            ProcessId::new(1, 0, i),
            Term::from_u64(i),
        ))
        .unwrap();
    }
    for i in 0..5u64 {
        let msg = rx.try_recv().unwrap();
        assert_eq!(msg.from().local_id(), i);
    }
}

#[test]
fn dropped_sender_closes_receiver() {
    let (tx, mut rx) = Mailbox::unbounded();
    drop(tx);
    assert!(rx.try_recv().is_none());
}

#[test]
fn bounded_send_after_drain() {
    let (tx, mut rx) = Mailbox::bounded(1);
    let msg1 = Message::new(ProcessId::new(1, 0, 1), Term::Nil);
    tx.send(msg1).unwrap();
    rx.try_recv().unwrap();
    let msg2 = Message::new(ProcessId::new(1, 0, 2), Term::Nil);
    assert!(tx.send(msg2).is_ok());
}

#[test]
fn send_to_closed_receiver_returns_error() {
    let (tx, rx) = Mailbox::unbounded();
    drop(rx);
    let msg = Message::new(ProcessId::new(1, 0, 1), Term::Nil);
    assert!(tx.send(msg).is_err());
}


#[test]
fn large_message_throughput() {
    let (tx, mut rx) = Mailbox::unbounded();
    let count = 10_000;
    for i in 0..count {
        tx.send(Message::new(
            ProcessId::new(1, 0, 1),
            Term::from_u64(i),
        ))
        .unwrap();
    }
    for _ in 0..count {
        rx.try_recv().unwrap();
    }
}


#[test]
fn bounded_try_send_full_returns_mailbox_full() {
    let (tx, _rx) = Mailbox::bounded(1);
    tx.send(Message::new(ProcessId::new(1, 0, 1), Term::Nil))
        .unwrap();
    let result = tx.try_send(Message::new(ProcessId::new(1, 0, 2), Term::Nil));
    match result {
        Err(SendError::MailboxFull(_)) => {}
        other => panic!("expected MailboxFull, got {:?}", other),
    }
}



#[test]
fn every_clone_sends_to_the_same_mailbox() {
    let (tx, mut rx) = Mailbox::unbounded();
    for i in 0..10u64 {
        let tx = tx.clone();
        tx.send(Message::new(ProcessId::new(1, 0, i), Term::from_u64(i))).unwrap();
    }
    let mut received = 0;
    while rx.try_recv().is_some() {
        received += 1;
    }
    assert_eq!(received, 10);
}
