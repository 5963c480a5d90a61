//! Routing messages between the processes of a node.
use crate::process::table::ProcessTable;
use crate::process::types::clock_read;
use crate::process::{Message, ProcessId, SendError};
use crate::term::{Term, TermView};
use std::sync::Arc;
use vstd::prelude::*;

verus! {

/// What routes messages between processes. An implementation decides whether to deliver here, to
/// the processes of the table that it is given, or over the network.
pub trait MessageRouter {
    fn route(
        &self,
        home: &ProcessTable,
        from: ProcessId,
        to: ProcessId,
        payload: Term,
    ) -> Result<(), SendError>
        requires
            home.wf(),
    ;
}

/// Whether `r` is what came of delivering a payload of this content from one process to another
/// of the table: a message with this sender and content was sent to the receiver, without a
/// timestamp or with one that the clock gave.
pub open spec fn delivered(
    table: ProcessTable,
    from: ProcessId,
    to: ProcessId,
    payload: TermView,
    stamped: bool,
    r: Result<(), SendError>,
) -> bool {
    exists|m: Message|
        m.sender() == from && m.body()@ == payload && (m.time() is Some) == stamped && (stamped
            ==> clock_read(m.time()->0)) && #[trigger] table.answers(to, m, r)
}

/// The router that delivers to the processes of the table it is given.
pub struct LocalRouter;

impl LocalRouter {
    pub fn new() -> Self {
        LocalRouter
    }
}

impl MessageRouter for LocalRouter {
    /// Delivers a message without a timestamp to a process of the table.
    fn route(&self, home: &ProcessTable, from: ProcessId, to: ProcessId, payload: Term) -> (r:
        Result<(), SendError>)
        ensures
            delivered(*home, from, to, payload@, false, r),
    {
        let msg = Message::new_internal(from, payload);
        let ghost sent = msg;
        let r = home.send(to, msg);
        assert(home.answers(to, sent, r));
        r
    }
}

/// A router that delivers locally, or another one.
pub enum RouterKind<R: MessageRouter> {
    Local(LocalRouter),
    Custom(Arc<R>),
}

impl<R: MessageRouter> MessageRouter for RouterKind<R> {
    fn route(&self, home: &ProcessTable, from: ProcessId, to: ProcessId, payload: Term) -> (r:
        Result<(), SendError>)
        ensures
            self is Local ==> delivered(*home, from, to, payload@, false, r),
            self matches RouterKind::Custom(other) ==> call_ensures(
                R::route,
                (&*other, home, from, to, payload),
                r,
            ),
    {
        match self {
            RouterKind::Local(r) => r.route(home, from, to, payload),
            RouterKind::Custom(r) => r.route(home, from, to, payload),
        }
    }
}

/// Delivering is handing over a message: where the receiver is in the table, a message from the
/// sender with just this payload went into its mailbox, and else the sender learns that the
/// receiver is dead.
pub proof fn delivering_hands_the_message_over(
    table: ProcessTable,
    from: ProcessId,
    to: ProcessId,
    payload: TermView,
    stamped: bool,
    r: Result<(), SendError>,
)
    requires
        delivered(table, from, to, payload, stamped, r),
    ensures
        !table.alive().dom().contains(to) ==> r == Err::<(), SendError>(SendError::ProcessDead(to)),
        table.alive().dom().contains(to) ==> exists|m: Message|
            m.sender() == from && m.body()@ == payload && (m.time() is Some <==> stamped)
                && #[trigger] table.alive()[to].mailbox().answers(m, r),
{
    let m = choose|m: Message|
        m.sender() == from && m.body()@ == payload && (m.time() is Some) == stamped && (stamped
            ==> clock_read(m.time()->0)) && #[trigger] table.answers(to, m, r);
    if table.alive().dom().contains(to) {
        assert(table.alive()[to].mailbox().answers(m, r));
    }
}

/// The local router tells a sender that a receiver is dead which the table does not hold.
pub proof fn local_routes_know_the_dead(
    home: ProcessTable,
    from: ProcessId,
    to: ProcessId,
    payload: Term,
    r: Result<(), SendError>,
)
    requires
        !home.alive().dom().contains(to),
        call_ensures(
            <LocalRouter as MessageRouter>::route,
            (&LocalRouter, &home, from, to, payload),
            r,
        ),
    ensures
        r == Err::<(), SendError>(SendError::ProcessDead(to)),
{
}

} // verus!
