//! What processes, names, monitors and links promise from one call to the next.
use crate::counter::Counter;
use crate::process::mailbox::{send_result, MailboxTx, SendOutcome};
use crate::process::monitor::{removing_undoes_adding, LinkSet, MonitorRef, MonitorSet};
use crate::process::table::{GlobalNames, ProcessHandle, ProcessTable};
use crate::process::types::pid_text;
use crate::process::{ExitReason, Message, ProcessId, RegistryError, SendError};
use crate::term::Term;
use crate::text::decimal;
use vstd::prelude::*;

verus! {

/// A table never draws an identity twice: of two drawn in a row the second has the next number,
/// and both are of the table's node and thread.
pub proof fn drawn_identities_differ(
    before: ProcessTable,
    between: ProcessTable,
    after: ProcessTable,
    first: ProcessId,
    second: ProcessId,
)
    requires
        exists|m: &mut ProcessTable|
            *m == before && *final(m) == between && #[trigger] call_ensures(
                ProcessTable::allocate_pid,
                (m,),
                first,
            ),
        exists|m: &mut ProcessTable|
            *m == between && *final(m) == after && #[trigger] call_ensures(
                ProcessTable::allocate_pid,
                (m,),
                second,
            ),
    ensures
        first != second,
        second.local() == first.local() + 1,
        first.node() == before.node(),
        first.thread() == before.thread(),
        second.node() == before.node(),
        second.thread() == before.thread(),
{
    broadcast use crate::process::types::pid_of_parts;

}

/// A process that was put into the table is alive, whatever it was before, and every other process
/// is alive exactly where it was.
pub proof fn inserted_processes_are_alive(
    before: ProcessTable,
    pid: ProcessId,
    handle: ProcessHandle,
    after: ProcessTable,
    other: ProcessId,
    was: bool,
    is: bool,
    here: bool,
)
    requires
        exists|m: &mut ProcessTable|
            *m == before && *final(m) == after && #[trigger] call_ensures(
                ProcessTable::insert,
                (m, pid, handle),
                (),
            ),
        other != pid,
        call_ensures(ProcessTable::is_alive, (&before, &other), was),
        call_ensures(ProcessTable::is_alive, (&after, &other), is),
        call_ensures(ProcessTable::is_alive, (&after, &pid), here),
    ensures
        here,
        is == was,
{
}

/// A process that was taken out of the table is dead, and no name of the thread stands for it any
/// more; what is told is whether it was alive. Every other process is alive exactly where it was.
pub proof fn removed_processes_are_dead(
    before: ProcessTable,
    pid: ProcessId,
    after: ProcessTable,
    r: Option<ProcessHandle>,
    was_there: bool,
    is_there: bool,
    other: ProcessId,
    was: bool,
    is: bool,
    name: Seq<char>,
)
    requires
        exists|m: &mut ProcessTable|
            *m == before && *final(m) == after && #[trigger] call_ensures(
                ProcessTable::remove,
                (m, &pid),
                r,
            ),
        other != pid,
        call_ensures(ProcessTable::is_alive, (&before, &pid), was_there),
        call_ensures(ProcessTable::is_alive, (&after, &pid), is_there),
        call_ensures(ProcessTable::is_alive, (&before, &other), was),
        call_ensures(ProcessTable::is_alive, (&after, &other), is),
    ensures
        r is Some <==> was_there,
        !is_there,
        is == was,
        after.named().dom().contains(name) ==> after.named()[name] != pid,
        before.named().dom().contains(name) && before.named()[name] != pid ==> after.named().dom().contains(
            name,
        ),
{
    crate::process::table::removal_clears_names(before.named(), pid, name);
}

/// A process that was killed is dead, and no name of the thread stands for it any more; what is
/// told is whether it was alive. Every other process is alive exactly where it was.
pub proof fn killed_processes_are_dead(
    before: ProcessTable,
    pid: ProcessId,
    after: ProcessTable,
    r: bool,
    was_there: bool,
    is_there: bool,
    other: ProcessId,
    was: bool,
    is: bool,
    name: Seq<char>,
)
    requires
        exists|m: &mut ProcessTable|
            *m == before && *final(m) == after && #[trigger] call_ensures(
                ProcessTable::kill,
                (m, &pid),
                r,
            ),
        other != pid,
        call_ensures(ProcessTable::is_alive, (&before, &pid), was_there),
        call_ensures(ProcessTable::is_alive, (&after, &pid), is_there),
        call_ensures(ProcessTable::is_alive, (&before, &other), was),
        call_ensures(ProcessTable::is_alive, (&after, &other), is),
    ensures
        r <==> was_there,
        !is_there,
        is == was,
        after.named().dom().contains(name) ==> after.named()[name] != pid,
        before.named().dom().contains(name) && before.named()[name] != pid ==> after.named().dom().contains(
            name,
        ),
{
    crate::process::table::removal_clears_names(before.named(), pid, name);
}

/// A name that a process was given leads to it. It is given exactly where the process is alive and
/// the name is free on the thread, and a refusal changes no name.
pub proof fn given_names_lead_to_their_process(
    before: ProcessTable,
    name: String,
    pid: ProcessId,
    after: ProcessTable,
    r: Result<(), RegistryError>,
    asked: &str,
    found: Option<ProcessId>,
    alive: bool,
)
    requires
        exists|m: &mut ProcessTable|
            *m == before && *final(m) == after && #[trigger] call_ensures(
                ProcessTable::register_name,
                (m, name, pid),
                r,
            ),
        asked@ == name@,
        call_ensures(ProcessTable::whereis, (&after, asked), found),
        call_ensures(ProcessTable::is_alive, (&before, &pid), alive),
    ensures
        r is Ok <==> alive && !before.named().dom().contains(name@),
        r is Ok ==> found == Some(pid),
        r is Err ==> after.named() == before.named(),
        !alive ==> r == Err::<(), RegistryError>(RegistryError::ProcessNotFound(pid)),
        alive && r is Err ==> r == Err::<(), RegistryError>(
            RegistryError::NameAlreadyRegistered(name),
        ),
{
}

/// A name that was taken away stood for the process that is told, and is free from then on: it
/// leads nowhere, where no registry is shared. A name that nobody has cannot be taken away.
pub proof fn names_taken_away_lead_nowhere(
    before: ProcessTable,
    name: &str,
    after: ProcessTable,
    r: Result<ProcessId, RegistryError>,
    was: Option<ProcessId>,
    is: Option<ProcessId>,
)
    requires
        exists|m: &mut ProcessTable|
            *m == before && *final(m) == after && #[trigger] call_ensures(
                ProcessTable::unregister_name,
                (m, name),
                r,
            ),
        before.attached() is None,
        call_ensures(ProcessTable::whereis, (&before, name), was),
        call_ensures(ProcessTable::whereis, (&after, name), is),
    ensures
        is is None,
        was is Some ==> r == Ok::<ProcessId, RegistryError>(was->0),
        was is None ==> r is Err && r->Err_0 is NameNotFound && after.named() == before.named(),
{
}

/// A message to a process that is not in the table is refused, and names the process.
pub proof fn the_dead_get_no_messages(
    t: ProcessTable,
    pid: ProcessId,
    msg: Message,
    r: Result<(), SendError>,
    alive: bool,
)
    requires
        call_ensures(ProcessTable::send, (&t, pid, msg), r),
        call_ensures(ProcessTable::is_alive, (&t, &pid), alive),
        !alive,
    ensures
        r == Err::<(), SendError>(SendError::ProcessDead(pid)),
{
}

/// The processes that are listed are those that are alive, each once; their number is the length
/// of the table, and the table is empty where there are none.
pub proof fn the_living_are_listed(
    t: ProcessTable,
    list: Vec<ProcessId>,
    n: usize,
    empty: bool,
    pid: ProcessId,
    alive: bool,
)
    requires
        call_ensures(ProcessTable::list_pids, (&t,), list),
        call_ensures(ProcessTable::len, (&t,), n),
        call_ensures(ProcessTable::is_empty, (&t,), empty),
        call_ensures(ProcessTable::is_alive, (&t, &pid), alive),
    ensures
        list@.contains(pid) <==> alive,
        list@.no_duplicates(),
        list@.len() == n,
        empty <==> n == 0,
{
    list@.unique_seq_to_set();
    assert(list@.to_set().contains(pid) <==> list@.contains(pid));
    if n == 0 {
        assert(list@ =~= Seq::<ProcessId>::empty());
        assert(t.alive().dom() =~= Set::<ProcessId>::empty()) by {
            assert(list@.to_set() =~= Set::<ProcessId>::empty());
        }
        assert(t.alive() =~= Map::<ProcessId, ProcessHandle>::empty());
    } else {
        assert(list@.to_set().contains(list@[0]));
    }
}

/// A name across threads that was registered leads to its process and cannot be registered again;
/// once it is removed, which tells its process, it leads nowhere.
pub proof fn shared_names_lead_to_their_process(
    before: GlobalNames,
    name: String,
    thread: u16,
    pid: ProcessId,
    held: GlobalNames,
    r: Result<(), RegistryError>,
    asked: &str,
    found: Option<ProcessId>,
    freed: GlobalNames,
    removal: Result<ProcessId, RegistryError>,
    left: Option<ProcessId>,
    other_thread: u16,
    other: ProcessId,
    again: GlobalNames,
    second: Result<(), RegistryError>,
)
    requires
        exists|m: &mut GlobalNames|
            *m == before && *final(m) == held && #[trigger] call_ensures(
                GlobalNames::register,
                (m, name, thread, pid),
                r,
            ),
        r is Ok,
        asked@ == name@,
        call_ensures(GlobalNames::lookup, (&held, asked), found),
        exists|m: &mut GlobalNames|
            *m == held && *final(m) == again && #[trigger] call_ensures(
                GlobalNames::register,
                (m, name, other_thread, other),
                second,
            ),
        exists|m: &mut GlobalNames|
            *m == held && *final(m) == freed && #[trigger] call_ensures(
                GlobalNames::unregister,
                (m, asked),
                removal,
            ),
        call_ensures(GlobalNames::lookup, (&freed, asked), left),
    ensures
        found == Some(pid),
        second is Err,
        again@ == held@,
        removal == Ok::<ProcessId, RegistryError>(pid),
        left is None,
{
}

/// A monitor that was added watches its process behind those that did, under the reference that is
/// given, and no other process; once it is removed, the process is watched as before.
pub proof fn monitors_watch_until_removed(
    before: MonitorSet,
    target: ProcessId,
    refs: Counter,
    refs_after: Counter,
    mref: MonitorRef,
    added: MonitorSet,
    removed: MonitorSet,
    other: ProcessId,
    was: Vec<MonitorRef>,
    is: Vec<MonitorRef>,
    left: Vec<MonitorRef>,
    elsewhere: Vec<MonitorRef>,
    elsewhere_was: Vec<MonitorRef>,
)
    requires
        before.wf(),
        other != target,
        exists|m: &mut MonitorSet, c: &mut Counter|
            *m == before && *final(m) == added && *c == refs && *final(c) == refs_after
                && #[trigger] call_ensures(
                MonitorSet::add_monitor,
                (m, target, c),
                mref,
            ),
        exists|m: &mut MonitorSet|
            *m == added && *final(m) == removed && #[trigger] call_ensures(
                MonitorSet::remove_monitor,
                (m, mref),
                (),
            ),
        call_ensures(MonitorSet::monitors_for, (&before, target), was),
        call_ensures(MonitorSet::monitors_for, (&added, target), is),
        call_ensures(MonitorSet::monitors_for, (&removed, target), left),
        call_ensures(MonitorSet::monitors_for, (&before, other), elsewhere_was),
        call_ensures(MonitorSet::monitors_for, (&added, other), elsewhere),
    ensures
        is@ == was@.push(mref),
        left@ == was@,
        elsewhere@ == elsewhere_was@,
        mref.number() == refs@,
{
    removing_undoes_adding(before, target, mref, added, removed, target);
}

/// A link lasts until it is removed: what was linked is, what was unlinked is not, nothing else
/// changes, and what is listed is what is linked, each once.
pub proof fn links_last_until_removed(
    before: LinkSet,
    pid: ProcessId,
    linked: LinkSet,
    unlinked: LinkSet,
    other: ProcessId,
    was: bool,
    is: bool,
    still: bool,
    here: bool,
    gone: bool,
    list: Vec<ProcessId>,
)
    requires
        other != pid,
        exists|m: &mut LinkSet|
            *m == before && *final(m) == linked && #[trigger] call_ensures(
                LinkSet::add_link,
                (m, pid),
                (),
            ),
        exists|m: &mut LinkSet|
            *m == linked && *final(m) == unlinked && #[trigger] call_ensures(
                LinkSet::remove_link,
                (m, pid),
                (),
            ),
        call_ensures(LinkSet::is_linked, (&before, other), was),
        call_ensures(LinkSet::is_linked, (&linked, other), is),
        call_ensures(LinkSet::is_linked, (&unlinked, other), still),
        call_ensures(LinkSet::is_linked, (&linked, pid), here),
        call_ensures(LinkSet::is_linked, (&unlinked, pid), gone),
        call_ensures(LinkSet::linked_pids, (&linked,), list),
    ensures
        here,
        !gone,
        is == was,
        still == was,
        list@.contains(pid),
        list@.contains(other) <==> is,
        list@.no_duplicates(),
{
    assert(list@.contains(pid) <==> list@.to_set().contains(pid));
    assert(list@.contains(other) <==> list@.to_set().contains(other));
}

/// An identity is the three numbers that it was made of.
pub proof fn identities_are_their_numbers(
    node: u64,
    thread: u16,
    local: u64,
    pid: ProcessId,
    a: u64,
    b: u16,
    c: u64,
)
    requires
        call_ensures(ProcessId::new, (node, thread, local), pid),
        call_ensures(ProcessId::node_id, (&pid,), a),
        call_ensures(ProcessId::thread_id, (&pid,), b),
        call_ensures(ProcessId::local_id, (&pid,), c),
    ensures
        a == node,
        b == thread,
        c == local,
{
}

/// A message carries its sender and its payload as they were given, and a time only where it is to
/// have one.
pub proof fn messages_carry_what_they_were_given(
    from: ProcessId,
    payload: Term,
    time: u64,
    inner: Message,
    stamped: Message,
    sender: ProcessId,
    body: &Term,
    none: Option<u64>,
    at: Option<u64>,
)
    requires
        call_ensures(Message::new_internal, (from, payload), inner),
        call_ensures(Message::at, (from, payload, time), stamped),
        call_ensures(Message::from, (&inner,), sender),
        call_ensures(Message::payload, (&inner,), body),
        call_ensures(Message::timestamp, (&inner,), none),
        call_ensures(Message::timestamp, (&stamped,), at),
    ensures
        sender == from,
        *body == payload,
        none is None,
        at == Some(time),
        stamped.sender() == from,
        stamped.body() == payload,
{
}

/// Only the normal reason is normal.
pub proof fn only_the_normal_reason_is_normal(
    reason: ExitReason,
    r: bool,
)
    requires
        call_ensures(ExitReason::is_normal, (&reason,), r),
    ensures
        r <==> reason == ExitReason::Normal,
{
}

/// Of numbers drawn one after the other from a counter the second is the next, and only after the
/// last does it start over.
pub proof fn draws_follow_each_other(
    before: Counter,
    between: Counter,
    after: Counter,
    first: u64,
    second: u64,
)
    requires
        exists|m: &mut Counter|
            *m == before && *final(m) == between && #[trigger] call_ensures(
                Counter::draw,
                (m,),
                first,
            ),
        exists|m: &mut Counter|
            *m == between && *final(m) == after && #[trigger] call_ensures(
                Counter::draw,
                (m,),
                second,
            ),
    ensures
        first == before@,
        first < u64::MAX ==> second == first + 1,
        first == u64::MAX ==> second == 0,
        first != second,
{
}

/// What a sender is told of its message is told by what became of it: success where it was taken,
/// and else whether the mailbox was full or its owner gone.
pub proof fn send_results_tell_outcomes_apart(
    from: ProcessId,
    a: SendOutcome,
    b: SendOutcome,
    x: Result<(), SendError>,
    y: Result<(), SendError>,
)
    requires
        call_ensures(send_result, (from, a), x),
        call_ensures(send_result, (from, b), y),
    ensures
        a == SendOutcome::Sent <==> x is Ok,
        x == y ==> a == b,
        a == SendOutcome::Full ==> x == Err::<(), SendError>(SendError::MailboxFull(from)),
{
}

/// An error of sending says what went wrong and names the process, node or name that it is about.
pub proof fn send_errors_say_what_went_wrong(
    e: SendError,
    r: String,
)
    requires
        call_ensures(SendError::to_string, (&e,), r),
    ensures
        e matches SendError::ProcessDead(pid) ==> r@ == "process dead: "@ + pid_text(pid),
        e matches SendError::MailboxFull(pid) ==> r@ == "mailbox full for: "@ + pid_text(pid),
        e matches SendError::NodeUnreachable(n) ==> r@ == "node unreachable: "@ + decimal(n as nat),
        e matches SendError::NameNotFound(name) ==> r@ == "name not found: "@ + name@,
        e matches SendError::MalformedFrame(what) ==> r@ == "malformed frame: "@ + what@,
{
}

/// An error of registering says what went wrong and names the name or process that it is about.
pub proof fn registry_errors_say_what_went_wrong(
    e: RegistryError,
    r: String,
)
    requires
        call_ensures(RegistryError::to_string, (&e,), r),
    ensures
        e matches RegistryError::NameAlreadyRegistered(name) ==> r@ == "name already registered: "@ + name@,
        e matches RegistryError::ProcessNotFound(pid) ==> r@ == "process not found: "@ + pid_text(pid),
        e matches RegistryError::NameNotFound(name) ==> r@ == "name not found: "@ + name@,
{
}

/// A process is written by its node, its thread and its number, in this order.
pub proof fn processes_are_written_by_their_numbers(
    pid: ProcessId,
    r: String,
)
    requires
        call_ensures(ProcessId::to_string, (&pid,), r),
    ensures
        r@ == "<"@ + decimal(pid.node() as nat) + "."@ + decimal(pid.thread() as nat) + "."@ + decimal(
            pid.local() as nat,
        ) + ">"@,
{
}

/// A process is in the table where it is alive there, and a name of the thread leads to its
/// process whatever is shared.
pub proof fn names_of_the_thread_come_first(
    t: ProcessTable,
    pid: ProcessId,
    a: bool,
    b: bool,
    name: &str,
    found: Option<ProcessId>,
)
    requires
        call_ensures(ProcessTable::get_exists, (&t, &pid), a),
        call_ensures(ProcessTable::is_alive, (&t, &pid), b),
        call_ensures(ProcessTable::whereis, (&t, name), found),
    ensures
        a == b,
        t.named().dom().contains(name@) ==> found == Some(t.named()[name@]),
        !t.named().dom().contains(name@) && t.attached() is None ==> found is None,
{
}

/// Without a shared registry no name can be registered or removed across threads.
pub proof fn sharing_needs_a_registry(
    t: ProcessTable,
    name: String,
    pid: ProcessId,
    a: Result<(), RegistryError>,
    b: Result<ProcessId, RegistryError>,
    text: &str,
)
    requires
        t.attached() is None,
        call_ensures(ProcessTable::register_global, (&t, name, pid), a),
        call_ensures(ProcessTable::unregister_global, (&t, text), b),
    ensures
        a matches Err(e) && (e matches RegistryError::NameNotFound(text) && text@
            == "no global registry"@),
        b matches Err(e) && (e matches RegistryError::NameNotFound(text) && text@
            == "no global registry"@),
{
}

/// A mailbox without a limit is never full, and what a sender is told names the sender.
pub proof fn unlimited_mailboxes_are_never_full(
    tx: MailboxTx,
    msg: Message,
    r: Result<(), SendError>,
    s: Result<(), SendError>,
)
    requires
        call_ensures(MailboxTx::send, (&tx, msg), r),
        call_ensures(MailboxTx::try_send, (&tx, msg), s),
    ensures
        tx.inner is Unbounded && r is Err ==> r == Err::<(), SendError>(
            SendError::ProcessDead(msg.sender()),
        ),
        tx.inner is Unbounded && s is Err ==> s == Err::<(), SendError>(
            SendError::ProcessDead(msg.sender()),
        ),
        r matches Err(e) ==> e == SendError::ProcessDead(msg.sender()) || e == SendError::MailboxFull(
            msg.sender(),
        ),
{
}

/// Whatever happens to its processes and names, a table stays that of its node and thread.
pub proof fn tables_stay_where_they_are(
    before: ProcessTable,
    pid: ProcessId,
    handle: ProcessHandle,
    name: String,
    a: ProcessTable,
    b: ProcessTable,
    gone: Option<ProcessHandle>,
    c: ProcessTable,
    r: Result<(), RegistryError>,
    d: ProcessTable,
    drawn: ProcessId,
)
    requires
        exists|m: &mut ProcessTable|
            *m == before && *final(m) == a && #[trigger] call_ensures(
                ProcessTable::insert,
                (m, pid, handle),
                (),
            ),
        exists|m: &mut ProcessTable|
            *m == before && *final(m) == b && #[trigger] call_ensures(
                ProcessTable::remove,
                (m, &pid),
                gone,
            ),
        exists|m: &mut ProcessTable|
            *m == before && *final(m) == c && #[trigger] call_ensures(
                ProcessTable::register_name,
                (m, name, pid),
                r,
            ),
        exists|m: &mut ProcessTable|
            *m == before && *final(m) == d && #[trigger] call_ensures(
                ProcessTable::allocate_pid,
                (m,),
                drawn,
            ),
    ensures
        a.node() == before.node() && a.thread() == before.thread() && a.attached() == before.attached(),
        b.node() == before.node() && b.thread() == before.thread() && b.attached() == before.attached(),
        c.node() == before.node() && c.thread() == before.thread() && c.attached() == before.attached(),
        d.node() == before.node() && d.thread() == before.thread() && d.attached() == before.attached(),
        a.next_local() == before.next_local() && b.next_local() == before.next_local(),
        a.named() == before.named(),
        c.alive() == before.alive() && d.alive() == before.alive(),
{
}

} // verus!
