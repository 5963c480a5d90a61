//! Mailboxes: the channels that carry messages to a process.
use crate::process::{Message, ProcessId, SendError};
use tokio::sync::mpsc;
use vstd::prelude::*;

verus! {

/// The sender of an unbounded `tokio` channel.
#[verifier::external_type_specification]
#[verifier::external_body]
#[verifier::reject_recursive_types(T)]
pub struct ExUnboundedSender<T>(tokio::sync::mpsc::UnboundedSender<T>);

/// The receiver of an unbounded `tokio` channel.
#[verifier::external_type_specification]
#[verifier::external_body]
#[verifier::reject_recursive_types(T)]
pub struct ExUnboundedReceiver<T>(tokio::sync::mpsc::UnboundedReceiver<T>);

/// The sender of a bounded `tokio` channel.
#[verifier::external_type_specification]
#[verifier::external_body]
#[verifier::reject_recursive_types(T)]
pub struct ExBoundedSender<T>(tokio::sync::mpsc::Sender<T>);

/// The receiver of a bounded `tokio` channel.
#[verifier::external_type_specification]
#[verifier::external_body]
#[verifier::reject_recursive_types(T)]
pub struct ExBoundedReceiver<T>(tokio::sync::mpsc::Receiver<T>);

/// What became of a message that was put into a channel.
#[derive(Debug, Clone, Copy, PartialEq, Eq, Structural)]
pub enum SendOutcome {
    /// The channel took it.
    Sent,
    /// The channel holds as many messages as it may.
    Full,
    /// The receiver is gone.
    Closed,
}

/// The largest capacity that a bounded channel may have.
pub open spec fn max_capacity() -> int {
    usize::MAX as int / 8
}

/// `tokio::sync::mpsc::unbounded_channel`. Nothing is claimed of the pair.
#[verifier::external_body]
fn open_unbounded() -> (mpsc::UnboundedSender<Message>, mpsc::UnboundedReceiver<Message>) {
    mpsc::unbounded_channel()
}

/// `tokio::sync::mpsc::channel`, which panics on a capacity of zero and on one above the limit
/// of its semaphore. Nothing is claimed of the pair.
#[verifier::external_body]
fn open_bounded(capacity: usize) -> (mpsc::Sender<Message>, mpsc::Receiver<Message>)
    requires
        0 < capacity <= max_capacity(),
{
    mpsc::channel(capacity)
}

/// `tokio::sync::mpsc::UnboundedSender::send`. Claimed: it fails only because the receiver is
/// gone. Whether the receiver is gone depends on the other side, so nothing is claimed of that.
#[verifier::external_body]
fn put_unbounded(tx: &mpsc::UnboundedSender<Message>, msg: Message) -> (r: SendOutcome)
    ensures
        r != SendOutcome::Full,
{
    match tx.send(msg) {
        Ok(()) => SendOutcome::Sent,
        Err(_) => SendOutcome::Closed,
    }
}

/// `tokio::sync::mpsc::Sender::try_send`. The outcome depends on the other side of the channel,
/// so nothing is claimed of it.
#[verifier::external_body]
fn put_bounded(tx: &mpsc::Sender<Message>, msg: Message) -> SendOutcome {
    match tx.try_send(msg) {
        Ok(()) => SendOutcome::Sent,
        Err(mpsc::error::TrySendError::Full(_)) => SendOutcome::Full,
        Err(mpsc::error::TrySendError::Closed(_)) => SendOutcome::Closed,
    }
}

/// `tokio::sync::mpsc::UnboundedReceiver::try_recv`: a message that is there, if any. What the
/// senders have put there is not known here, so nothing is claimed of it.
#[verifier::external_body]
fn take_unbounded(rx: &mut mpsc::UnboundedReceiver<Message>) -> Option<Message> {
    rx.try_recv().ok()
}

/// `tokio::sync::mpsc::Receiver::try_recv`: a message that is there, if any. What the senders
/// have put there is not known here, so nothing is claimed of it.
#[verifier::external_body]
fn take_bounded(rx: &mut mpsc::Receiver<Message>) -> Option<Message> {
    rx.try_recv().ok()
}

/// `tokio::sync::mpsc::UnboundedSender::clone`: another sender of the channel.
#[verifier::external_body]
fn share_unbounded(tx: &mpsc::UnboundedSender<Message>) -> mpsc::UnboundedSender<Message> {
    tx.clone()
}

/// `tokio::sync::mpsc::Sender::clone`: another sender of the channel.
#[verifier::external_body]
fn share_bounded(tx: &mpsc::Sender<Message>) -> mpsc::Sender<Message> {
    tx.clone()
}

/// The result of a send by a process, for each outcome: a closed channel means that the
/// receiving process is dead, a full one that its mailbox is full. The errors name the sender.
pub open spec fn send_result_spec(from: ProcessId, outcome: SendOutcome) -> Result<(), SendError> {
    match outcome {
        SendOutcome::Sent => Ok(()),
        SendOutcome::Full => Err(SendError::MailboxFull(from)),
        SendOutcome::Closed => Err(SendError::ProcessDead(from)),
    }
}

/// The result of a send by a process, for each outcome.
pub fn send_result(from: ProcessId, outcome: SendOutcome) -> (r: Result<(), SendError>)
    ensures
        r == send_result_spec(from, outcome),
        r is Ok <==> outcome == SendOutcome::Sent,
        outcome == SendOutcome::Full ==> r == Err::<(), SendError>(SendError::MailboxFull(from)),
        outcome == SendOutcome::Closed ==> r == Err::<(), SendError>(SendError::ProcessDead(from)),
{
    match outcome {
        SendOutcome::Sent => Ok(()),
        SendOutcome::Full => Err(SendError::MailboxFull(from)),
        SendOutcome::Closed => Err(SendError::ProcessDead(from)),
    }
}

/// The two kinds of channel that a mailbox can be sent through.
pub enum TxInner {
    Unbounded(mpsc::UnboundedSender<Message>),
    Bounded(mpsc::Sender<Message>),
}

/// The two kinds of channel that a mailbox can be read from.
pub enum RxInner {
    Unbounded(mpsc::UnboundedReceiver<Message>),
    Bounded(mpsc::Receiver<Message>),
}

/// The sending half of a mailbox. It can be cloned, for many senders.
pub struct MailboxTx {
    pub inner: TxInner,
}

/// The receiving half of a mailbox.
pub struct MailboxRx {
    pub inner: RxInner,
}

/// Whether the two halves are of one mailbox that takes any number of messages: they came from one
/// opening of an unbounded channel.
pub closed spec fn unbounded_pair(tx: MailboxTx, rx: MailboxRx) -> bool {
    match (tx.inner, rx.inner) {
        (TxInner::Unbounded(t), RxInner::Unbounded(r)) => call_ensures(open_unbounded, (), (t, r)),
        _ => false,
    }
}

/// Whether the two halves are of one mailbox that holds at most `capacity` messages: they came
/// from one opening of a channel with that capacity.
pub closed spec fn bounded_pair(capacity: usize, tx: MailboxTx, rx: MailboxRx) -> bool {
    match (tx.inner, rx.inner) {
        (TxInner::Bounded(t), RxInner::Bounded(r)) => call_ensures(
            open_bounded,
            (capacity,),
            (t, r),
        ),
        _ => false,
    }
}

/// The maker of mailboxes.
pub struct Mailbox;

impl Mailbox {
    /// A mailbox that takes any number of messages.
    pub fn unbounded() -> (r: (MailboxTx, MailboxRx))
        ensures
            r.0.inner is Unbounded,
            r.1.inner is Unbounded,
            unbounded_pair(r.0, r.1),
    {
        let (tx, rx) = open_unbounded();
        (MailboxTx { inner: TxInner::Unbounded(tx) }, MailboxRx { inner: RxInner::Unbounded(rx) })
    }

    /// A mailbox that holds at most `capacity` messages.
    pub fn bounded(capacity: usize) -> (r: (MailboxTx, MailboxRx))
        requires
            0 < capacity <= max_capacity(),
        ensures
            r.0.inner is Bounded,
            r.1.inner is Bounded,
            bounded_pair(capacity, r.0, r.1),
    {
        let (tx, rx) = open_bounded(capacity);
        (MailboxTx { inner: TxInner::Bounded(tx) }, MailboxRx { inner: RxInner::Bounded(rx) })
    }
}

impl MailboxTx {
    /// Whether `o` is what became of the message when it was put into the channel of the mailbox.
    pub closed spec fn put(self, msg: Message, o: SendOutcome) -> bool {
        match self.inner {
            TxInner::Unbounded(tx) => call_ensures(put_unbounded, (&tx, msg), o),
            TxInner::Bounded(tx) => call_ensures(put_bounded, (&tx, msg), o),
        }
    }

    /// Whether `r` is what came of sending the message: it was put into the channel, and `r` is
    /// the result for what became of it there. An unbounded mailbox is never full.
    pub open spec fn answers(self, msg: Message, r: Result<(), SendError>) -> bool {
        exists|o: SendOutcome| #[trigger]
            self.put(msg, o) && (self.inner is Unbounded ==> o != SendOutcome::Full) && r
                == send_result_spec(msg.sender(), o)
    }

    /// Puts a message into the mailbox, without waiting for room.
    pub fn send(&self, msg: Message) -> (r: Result<(), SendError>)
        ensures
            self.answers(msg, r),
            r is Ok ==> self.put(msg, SendOutcome::Sent),
            r matches Err(e) ==> {
                ||| e == SendError::ProcessDead(msg.sender()) && self.put(msg, SendOutcome::Closed)
                ||| e == SendError::MailboxFull(msg.sender()) && self.put(msg, SendOutcome::Full)
                    && self.inner is Bounded
            },
    {
        let from = msg.from();
        let ghost sent = msg;
        let outcome = match &self.inner {
            TxInner::Unbounded(tx) => put_unbounded(tx, msg),
            TxInner::Bounded(tx) => put_bounded(tx, msg),
        };
        assert(self.put(sent, outcome));
        send_result(from, outcome)
    }

    /// Puts a message into the mailbox if there is room.
    pub fn try_send(&self, msg: Message) -> (r: Result<(), SendError>)
        ensures
            self.answers(msg, r),
    {
        self.send(msg)
    }

    /// Whether another sender is one more sender of the same channel.
    pub closed spec fn shared_as(self, other: MailboxTx) -> bool {
        match (self.inner, other.inner) {
            (TxInner::Unbounded(a), TxInner::Unbounded(b)) => call_ensures(
                share_unbounded,
                (&a,),
                b,
            ),
            (TxInner::Bounded(a), TxInner::Bounded(b)) => call_ensures(share_bounded, (&a,), b),
            _ => false,
        }
    }
}

impl Clone for MailboxTx {
    fn clone(&self) -> (r: Self)
        ensures
            (r.inner is Bounded) == (self.inner is Bounded),
            self.shared_as(r),
    {
        match &self.inner {
            TxInner::Unbounded(tx) => MailboxTx {
                inner: TxInner::Unbounded(share_unbounded(tx)),
            },
            TxInner::Bounded(tx) => MailboxTx { inner: TxInner::Bounded(share_bounded(tx)) },
        }
    }
}

/// Whether `r` is what came of taking one message out of the unbounded channel.
pub closed spec fn takes_unbounded(
    rx: &mut mpsc::UnboundedReceiver<Message>,
    r: Option<Message>,
) -> bool {
    call_ensures(take_unbounded, (rx,), r)
}

/// Whether `r` is what came of taking one message out of the bounded channel.
pub closed spec fn takes_bounded(rx: &mut mpsc::Receiver<Message>, r: Option<Message>) -> bool {
    call_ensures(take_bounded, (rx,), r)
}

impl MailboxRx {
    /// Takes the first message, if one is there. What is there depends on the senders, so nothing
    /// more is promised of it.
    pub fn try_recv(&mut self) -> (r: Option<Message>)
        ensures
            match (old(self).inner, final(self).inner) {
                (RxInner::Unbounded(a), RxInner::Unbounded(b)) => exists|
                    m: &mut mpsc::UnboundedReceiver<Message>,
                | *m == a && *final(m) == b && #[trigger] takes_unbounded(m, r),
                (RxInner::Bounded(a), RxInner::Bounded(b)) => exists|
                    m: &mut mpsc::Receiver<Message>,
                | *m == a && *final(m) == b && #[trigger] takes_bounded(m, r),
                _ => false,
            },
    {
        match &mut self.inner {
            RxInner::Unbounded(rx) => {
                let ghost before = *rx;
                let r = take_unbounded(rx);
                proof {
                    let m = choose|m: &mut mpsc::UnboundedReceiver<Message>|
                        *m == before && *final(m) == *rx && #[trigger] call_ensures(
                            take_unbounded,
                            (m,),
                            r,
                        );
                    assert(takes_unbounded(m, r));
                }
                r
            },
            RxInner::Bounded(rx) => {
                let ghost before = *rx;
                let r = take_bounded(rx);
                proof {
                    let m = choose|m: &mut mpsc::Receiver<Message>|
                        *m == before && *final(m) == *rx && #[trigger] call_ensures(
                            take_bounded,
                            (m,),
                            r,
                        );
                    assert(takes_bounded(m, r));
                }
                r
            },
        }
    }
}

/// What a sender is told is what became of its message: success exactly where the channel took it,
/// that the mailbox is full only where it is bounded and was, and else that the process is dead.
pub proof fn senders_are_told_what_happened(tx: MailboxTx, msg: Message, r: Result<(), SendError>)
    requires
        tx.answers(msg, r),
    ensures
        match r {
            Ok(()) => tx.put(msg, SendOutcome::Sent),
            Err(SendError::MailboxFull(pid)) => tx.put(msg, SendOutcome::Full) && pid
                == msg.sender() && tx.inner is Bounded,
            Err(SendError::ProcessDead(pid)) => tx.put(msg, SendOutcome::Closed) && pid
                == msg.sender(),
            Err(_) => false,
        },
{
}

} // verus!
