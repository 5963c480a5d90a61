//! Messages between the threads of a node.
use crate::process::{Message, ProcessId};
use crossbeam_channel::{Receiver, Sender};
use std::sync::Arc;
use vstd::prelude::*;

verus! {

/// A message for a process of another thread.
pub struct CrossThreadMessage {
    pub target_pid: ProcessId,
    pub message: Message,
}

#[verifier::external_type_specification]
#[verifier::external_body]
#[verifier::reject_recursive_types(T)]
pub struct ExCrossbeamSender<T>(Sender<T>);

#[verifier::external_type_specification]
#[verifier::external_body]
#[verifier::reject_recursive_types(T)]
pub struct ExCrossbeamReceiver<T>(Receiver<T>);

/// How many messages the channel of a sender holds at most, if that is limited. It is fixed when
/// the channel is made.
pub uninterp spec fn channel_limit(tx: Sender<CrossThreadMessage>) -> Option<usize>;

/// `crossbeam_channel::unbounded`. Claimed: the channel holds any number of messages.
#[verifier::external_body]
fn unbounded_channel() -> (r: (Sender<CrossThreadMessage>, Receiver<CrossThreadMessage>))
    ensures
        channel_limit(r.0) is None,
{
    crossbeam_channel::unbounded()
}

/// `crossbeam_channel::Sender::send`, which waits for room on a channel with a limit, and so
/// need not return there. Claimed: where the channel is closed, the message comes back. Whether
/// it is closed depends on the receiver, so nothing is claimed of that.
#[verifier::external_body]
fn put_message(tx: &Sender<CrossThreadMessage>, msg: CrossThreadMessage) -> (r: Result<
    (),
    CrossThreadMessage,
>)
    requires
        channel_limit(*tx) is None,
    ensures
        r matches Err(back) ==> back == msg,
{
    tx.send(msg).map_err(|e| e.0)
}

/// `crossbeam_channel::Receiver::try_recv`. What is there depends on the senders, so nothing is
/// claimed of it.
#[verifier::external_body]
fn take_message(rx: &Receiver<CrossThreadMessage>) -> Option<CrossThreadMessage> {
    rx.try_recv().ok()
}

/// Whether the two ends are of one channel: they came from one opening.
pub closed spec fn are_linked(
    tx: Sender<CrossThreadMessage>,
    rx: Receiver<CrossThreadMessage>,
) -> bool {
    call_ensures(unbounded_channel, (), (tx, rx))
}

/// The channels between the threads of a node, one for each thread: the sending ends and the
/// receiving ends, in the threads' order. None has a limit.
pub fn open_channels(num_threads: usize) -> (r: (
    Vec<Sender<CrossThreadMessage>>,
    Vec<Receiver<CrossThreadMessage>>,
))
    ensures
        r.0@.len() == num_threads,
        r.1@.len() == num_threads,
        forall|i: int|
            0 <= i < num_threads ==> channel_limit(#[trigger] r.0@[i]) is None && are_linked(
                r.0@[i],
                r.1@[i],
            ),
{
    let mut senders: Vec<Sender<CrossThreadMessage>> = Vec::new();
    let mut receivers: Vec<Receiver<CrossThreadMessage>> = Vec::new();
    let mut i: usize = 0;
    while i < num_threads
        invariant
            i <= num_threads,
            senders@.len() == i,
            receivers@.len() == i,
            forall|j: int|
                0 <= j < i ==> channel_limit(#[trigger] senders@[j]) is None && are_linked(
                    senders@[j],
                    receivers@[j],
                ),
        decreases num_threads - i,
    {
        let (tx, rx) = unbounded_channel();
        senders.push(tx);
        receivers.push(rx);
        i = i + 1;
    }
    (senders, receivers)
}

/// What one thread has of the channels between the threads: all the sending ends, by the
/// threads' numbers, and its own receiving end.
pub struct ThreadBridge {
    senders: Arc<Vec<Sender<CrossThreadMessage>>>,
    local_rx: Receiver<CrossThreadMessage>,
    thread_id: u16,
}

impl ThreadBridge {
    /// The sending ends, by the threads' numbers.
    pub closed spec fn ends(self) -> Seq<Sender<CrossThreadMessage>> {
        self.senders@
    }

    /// The receiving end of this thread.
    pub closed spec fn inbox(self) -> Receiver<CrossThreadMessage> {
        self.local_rx
    }

    pub closed spec fn thread(self) -> u16 {
        self.thread_id
    }

    #[verifier::type_invariant]
    spec fn unlimited(self) -> bool {
        forall|i: int|
            0 <= i < self.senders@.len() ==> channel_limit(#[trigger] self.senders@[i]) is None
    }

    /// The part of the thread with the number in channels without limits.
    pub fn new(
        senders: Arc<Vec<Sender<CrossThreadMessage>>>,
        local_rx: Receiver<CrossThreadMessage>,
        thread_id: u16,
    ) -> (r: Self)
        requires
            forall|i: int|
                0 <= i < senders@.len() ==> channel_limit(#[trigger] senders@[i]) is None,
        ensures
            r.ends() == senders@,
            r.inbox() == local_rx,
            r.thread() == thread_id,
    {
        Self { senders, local_rx, thread_id }
    }

    /// Whether `r` is what came of putting the message into the channel of the thread.
    pub closed spec fn hands(
        self,
        thread_id: u16,
        msg: CrossThreadMessage,
        r: Result<(), CrossThreadMessage>,
    ) -> bool {
        call_ensures(put_message, (&self.ends()[thread_id as int], msg), r)
    }

    /// Sends a message to a thread. It comes back if that thread does not receive any more.
    pub fn send_to_thread(&self, thread_id: u16, msg: CrossThreadMessage) -> (r: Result<
        (),
        CrossThreadMessage,
    >)
        requires
            thread_id < self.ends().len(),
        ensures
            self.hands(thread_id, msg, r),
            r matches Err(back) ==> back == msg,
    {
        proof {
            use_type_invariant(self);
        }
        put_message(&self.senders[thread_id as usize], msg)
    }

    /// Whether `r` is what came of taking a message out of this thread's channel.
    pub closed spec fn takes(self, r: Option<CrossThreadMessage>) -> bool {
        call_ensures(take_message, (&self.inbox(),), r)
    }

    /// Takes the next message for this thread, if one is there. What is there depends on the
    /// other threads, so nothing more is promised of it.
    pub fn try_recv(&self) -> (r: Option<CrossThreadMessage>)
        ensures
            self.takes(r),
    {
        take_message(&self.local_rx)
    }

    /// The number of this thread.
    pub fn thread_id(&self) -> (r: u16)
        ensures
            r == self.thread(),
    {
        self.thread_id
    }
}

/// Each thread has a channel of its own without a limit, and a message that its thread does not
/// receive any more comes back as it was.
pub proof fn messages_between_threads_come_back(
    n: usize,
    ends: (
        Vec<Sender<CrossThreadMessage>>,
        Vec<Receiver<CrossThreadMessage>>,
    ),
    i: int,
    bridge: ThreadBridge,
    thread: u16,
    msg: CrossThreadMessage,
    r: Result<(), CrossThreadMessage>,
)
    requires
        call_ensures(open_channels, (n,), ends),
        0 <= i < n,
        call_ensures(ThreadBridge::send_to_thread, (&bridge, thread, msg), r),
    ensures
        ends.0@.len() == n,
        ends.1@.len() == n,
        channel_limit(ends.0@[i]) is None,
        are_linked(ends.0@[i], ends.1@[i]),
        r is Err ==> r->Err_0 == msg,
{
}

} // verus!
