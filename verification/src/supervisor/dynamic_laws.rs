//! What a supervisor of children that come and go promises: of each step, said of the children
//! that are known, of which of them run, and of what is to be started and stopped.
use crate::process::{ExitReason, ProcessId};
use crate::supervisor::common::{in_order, in_window, limit_counts_the_window};
use crate::supervisor::dynamic::{
    active_set, children_are_known_by_process, dyn_exit_step, dyn_infos_of, dyn_remove_step,
    dyn_start_step, dyn_terminate_step, is_dyn_step, tells_of_all, DynAction, DynChildInfo,
    DynReply, DynStep, DynSupervisorMsg, DynamicSupervisorState,
};
use crate::supervisor::engine::ChildEntry;
use crate::supervisor::laws::is_recent;
use crate::supervisor::spec::{RestartType, SupervisorError};
use crate::time::Instant;
use vstd::prelude::*;

verus! {

/// Validity against the counter: each process that is known or was asked to end has a number
/// drawn before `next`, and none that was asked to end runs.
pub open spec fn drawn_below<F>(s: DynamicSupervisorState<F>, next: u64) -> bool {
    &&& forall|p: ProcessId| #[trigger]
        s@.dom().contains(p) || s.ending().contains(p) ==> p.local() < next
    &&& forall|p: ProcessId| #[trigger]
        s.ending().contains(p) && s@.dom().contains(p) ==> !s@[p].active
}

/// A supervisor without children is valid against every counter, and as long as the counter does
/// not wrap around every step keeps it so.
pub proof fn steps_keep_processes_apart<F>(
    before: DynamicSupervisorState<F>,
    msg: Option<DynSupervisorMsg<F>>,
    now: Instant,
    next: u64,
    after: DynamicSupervisorState<F>,
    r: DynStep,
    next_after: u64,
)
    requires
        is_dyn_step(before, msg, now, next, after, r, next_after),
        drawn_below(before, next),
        next < u64::MAX,
    ensures
        drawn_below(after, next_after),
        next_after == next || next_after == next + 1,
{
    broadcast use crate::process::types::pid_of_parts;

    assert forall|p: ProcessId| #[trigger]
        after@.dom().contains(p) || after.ending().contains(p) implies p.local() < next_after by {
        assert(before@.dom().contains(p) || before.ending().contains(p) ==> p.local() < next);
        assert(ProcessId::of(1, 0, next).local() == next);
    }
    assert forall|p: ProcessId| #[trigger]
        after.ending().contains(p) && after@.dom().contains(p) implies !after@[p].active by {
        assert(before.ending().contains(p) && before@.dom().contains(p) ==> !before@[p].active);
        assert(before@.dom().contains(p) || before.ending().contains(p) ==> p.local() < next);
        assert(ProcessId::of(1, 0, next).local() == next);
    }
}

/// Whatever the restart type and the reason, once the end of a process was handled and the
/// supervisor goes on, no child that is known under that process counts as running.
pub proof fn ended_process_does_not_run<F>(
    before: DynamicSupervisorState<F>,
    pid: ProcessId,
    reason: ExitReason,
    now: Instant,
    next: u64,
    after: DynamicSupervisorState<F>,
    r: (DynAction, bool),
    next_after: u64,
)
    requires
        dyn_exit_step(before, pid, reason, now, next, after, r, next_after),
        drawn_below(before, next),
        !r.1,
    ensures
        !(after@.dom().contains(pid) && after@[pid].active),
{
    broadcast use crate::process::types::pid_of_parts;

    assert(ProcessId::of(1, 0, next).local() == next);
    assert(before@.dom().contains(pid) || before.ending().contains(pid) ==> pid.local() < next);
    assert(before.ending().contains(pid) && before@.dom().contains(pid) ==> !before@[pid].active);
}

/// A child that is to be restarted is: a permanent one always, a transient one unless it ended
/// normally. It comes back with its identifier, description and factory as the process that is
/// to be started, is not known under the old process any more, and no other child changes.
pub proof fn child_with_restart_comes_back<F>(
    before: DynamicSupervisorState<F>,
    pid: ProcessId,
    reason: ExitReason,
    now: Instant,
    next: u64,
    after: DynamicSupervisorState<F>,
    r: (DynAction, bool),
    next_after: u64,
)
    requires
        dyn_exit_step(before, pid, reason, now, next, after, r, next_after),
        drawn_below(before, next),
        before@.dom().contains(pid),
        !before.ending().contains(pid),
        before@[pid].spec.restart == RestartType::Permanent || (before@[pid].spec.restart
            == RestartType::Transient && !(reason is Normal)),
        !r.1,
    ensures
        r.0 is Start,
        r.0->Start_0 == ProcessId::of(1, 0, next),
        r.0->Start_0 != pid,
        !before@.dom().contains(r.0->Start_0),
        !after@.dom().contains(pid),
        after@.dom().contains(r.0->Start_0),
        after@[r.0->Start_0].active,
        after@[r.0->Start_0].pid == r.0->Start_0,
        after@[r.0->Start_0].id == before@[pid].id,
        after@[r.0->Start_0].spec == before@[pid].spec,
        after@[r.0->Start_0].factory == before@[pid].factory,
        forall|p: ProcessId|
            p != pid && p != r.0->Start_0 ==> {
                &&& #[trigger] after@.dom().contains(p) <==> before@.dom().contains(p)
                &&& after@.dom().contains(p) ==> after@[p] == before@[p]
            },
{
    broadcast use crate::process::types::pid_of_parts;

    assert(ProcessId::of(1, 0, next).local() == next);
    assert(before@.dom().contains(ProcessId::of(1, 0, next)) || before.ending().contains(
        ProcessId::of(1, 0, next),
    ) ==> ProcessId::of(1, 0, next).local() < next);
    assert(before@.dom().contains(pid) || before.ending().contains(pid) ==> pid.local() < next);
}

/// A child that is not to be restarted stays known as it was, but does not run: a temporary one,
/// and a transient one that ended normally. Nothing is started or stopped, no other child
/// changes, and no restart is counted.
pub proof fn dynamic_child_without_restart_is_left<F>(
    before: DynamicSupervisorState<F>,
    pid: ProcessId,
    reason: ExitReason,
    now: Instant,
    next: u64,
    after: DynamicSupervisorState<F>,
    r: (DynAction, bool),
    next_after: u64,
)
    requires
        dyn_exit_step(before, pid, reason, now, next, after, r, next_after),
        before@.dom().contains(pid),
        !before.ending().contains(pid),
        before@[pid].spec.restart == RestartType::Temporary || (before@[pid].spec.restart
            == RestartType::Transient && reason is Normal),
    ensures
        r == (DynAction::Nothing, false),
        after@.dom() == before@.dom(),
        !after@[pid].active,
        after@[pid].id == before@[pid].id,
        after@[pid].spec == before@[pid].spec,
        after@[pid].factory == before@[pid].factory,
        after@[pid].pid == before@[pid].pid,
        forall|p: ProcessId|
            p != pid && #[trigger] before@.dom().contains(p) ==> after@[p] == before@[p],
        after.restarts() == before.restarts(),
        after.ending() == before.ending(),
        next_after == next,
{
    assert(after@.dom() =~= before@.dom());
}

/// The end of a process that is not known, or that was asked to end, changes no child.
pub proof fn expected_and_stray_exits_change_no_child<F>(
    before: DynamicSupervisorState<F>,
    pid: ProcessId,
    reason: ExitReason,
    now: Instant,
    next: u64,
    after: DynamicSupervisorState<F>,
    r: (DynAction, bool),
    next_after: u64,
)
    requires
        dyn_exit_step(before, pid, reason, now, next, after, r, next_after),
        !before@.dom().contains(pid) || before.ending().contains(pid),
    ensures
        r == (DynAction::Nothing, false),
        after@ == before@,
        after.restarts() == before.restarts(),
        !after.ending().contains(pid),
        forall|p: ProcessId|
            p != pid ==> (#[trigger] after.ending().contains(p) <==> before.ending().contains(p)),
        next_after == next,
{
}

/// The limit is a rate: where a child is to be restarted, the supervisor ends, and all children
/// are to be stopped, exactly when the restarts of the last `max_seconds` seconds have reached
/// `max_restarts`. Else this restart is recorded behind them, and the older ones are forgotten.
pub proof fn dynamic_restart_limit_is_a_rate<F>(
    before: DynamicSupervisorState<F>,
    pid: ProcessId,
    reason: ExitReason,
    now: Instant,
    next: u64,
    after: DynamicSupervisorState<F>,
    r: (DynAction, bool),
    next_after: u64,
)
    requires
        dyn_exit_step(before, pid, reason, now, next, after, r, next_after),
        before@.dom().contains(pid),
        !before.ending().contains(pid),
        before@[pid].spec.restart == RestartType::Permanent || (before@[pid].spec.restart
            == RestartType::Transient && !(reason is Normal)),
        in_order(before.restarts()),
    ensures
        ({
            let recent = before.restarts().filter(|t: Instant| is_recent(t, now, before.window()));
            &&& r.1 <==> recent.len() >= before.restart_limit()
            &&& r.1 <==> r.0 == DynAction::StopAll
            &&& !r.1 ==> after.restarts() == recent.push(now)
        }),
{
    limit_counts_the_window(before.restarts(), now, before.window());
    let old_keep = |t: Instant| in_window(t, now, before.window());
    let keep = |t: Instant| is_recent(t, now, before.window());
    assert(keep =~= old_keep);
}

/// A child is started exactly where fewer children run than may. It then runs as the process
/// that is answered and that is to be started, beside the others, which do not change; where
/// there is no room, nothing changes.
pub proof fn children_are_started_while_there_is_room<F>(
    before: DynamicSupervisorState<F>,
    entry: ChildEntry<F>,
    next: u64,
    after: DynamicSupervisorState<F>,
    reply: Result<ProcessId, SupervisorError>,
    action: DynAction,
    next_after: u64,
)
    requires
        before.wf(),
        drawn_below(before, next),
        dyn_start_step(before, entry, next, after, reply, action, next_after),
    ensures
        before.children_limit() is None ==> reply is Ok,
        before.children_limit() is Some ==> (reply is Ok <==> before@.dom().filter(
            |p: ProcessId| before@[p].active,
        ).len() < before.children_limit()->0),
        match reply {
            Ok(pid) => {
                &&& action == DynAction::Start(pid)
                &&& !before@.dom().contains(pid)
                &&& after@.dom() == before@.dom().insert(pid)
                &&& after@[pid].active
                &&& after@[pid].pid == pid
                &&& after@[pid].id@ == entry.spec.id@
                &&& after@[pid].spec == entry.spec
                &&& after@[pid].factory == entry.factory
                &&& forall|p: ProcessId| #[trigger]
                    before@.dom().contains(p) ==> after@[p] == before@[p]
                &&& active_set(after@).len() == active_set(before@).len() + 1
            },
            Err(e) => {
                &&& e == SupervisorError::MaxChildren
                &&& action == DynAction::Nothing
                &&& after@ == before@
                &&& next_after == next
            },
        },
{
    broadcast use crate::process::types::pid_of_parts;

    let pid = ProcessId::of(1, 0, next);
    assert(pid.local() == next);
    assert(before@.dom().contains(pid) || before.ending().contains(pid) ==> pid.local() < next);
    if reply is Ok {
        assert(after@.dom() =~= before@.dom().insert(pid));
        assert(active_set(after@) =~= active_set(before@).insert(pid));
        children_are_known_by_process(before);
    }
}

/// The limit on children holds at all times: where no more run than may, no more do after a step.
pub proof fn children_limit_is_kept<F>(
    before: DynamicSupervisorState<F>,
    msg: Option<DynSupervisorMsg<F>>,
    now: Instant,
    next: u64,
    after: DynamicSupervisorState<F>,
    r: DynStep,
    next_after: u64,
)
    requires
        before.wf(),
        drawn_below(before, next),
        is_dyn_step(before, msg, now, next, after, r, next_after),
        before.children_limit() is Some,
        active_set(before@).len() <= before.children_limit()->0,
        msg matches Some(DynSupervisorMsg::ChildExited { pid, reason }) ==> (before@.dom().contains(
            pid,
        ) ==> before@[pid].active || before.ending().contains(pid)),
    ensures
        active_set(after@).len() <= before.children_limit()->0,
{
    broadcast use crate::process::types::pid_of_parts;

    children_are_known_by_process(before);
    let new_pid = ProcessId::of(1, 0, next);
    assert(new_pid.local() == next);
    assert(before@.dom().contains(new_pid) || before.ending().contains(new_pid) ==> new_pid.local()
        < next);
    let was = active_set(before@);
    match msg {
        Some(DynSupervisorMsg::StartChild { entry }) => {
            if r.action is Start {
                assert(active_set(after@) =~= was.insert(new_pid));
            }
        },
        Some(DynSupervisorMsg::TerminateChild { pid }) => {
            if before@.dom().contains(pid) {
                assert(active_set(after@) =~= was.remove(pid));
            }
        },
        Some(DynSupervisorMsg::RemoveChild { pid }) => {
            if before@.dom().contains(pid) && !before@[pid].active {
                assert(active_set(after@) =~= was);
            }
        },
        Some(DynSupervisorMsg::ChildExited { pid, reason }) => {
            if r.action is Start {
                assert(active_set(after@) =~= was.remove(pid).insert(new_pid));
            } else if after@ != before@ {
                assert(active_set(after@) =~= was.remove(pid));
            }
        },
        _ => {},
    }
}

/// A request to end a child is taken exactly where the child is known: its process is to be
/// stopped, it stays known but does not run, and its end will not count as a failure. No other
/// child changes.
pub proof fn terminate_marks_the_child<F>(
    before: DynamicSupervisorState<F>,
    pid: ProcessId,
    after: DynamicSupervisorState<F>,
    reply: Result<(), SupervisorError>,
    action: DynAction,
)
    requires
        dyn_terminate_step(before, pid, after, reply, action),
    ensures
        reply is Ok <==> before@.dom().contains(pid),
        reply is Err ==> reply->Err_0 is NotFound && action == DynAction::Nothing && after@ == before@,
        reply is Ok ==> {
            &&& action == DynAction::Stop(pid)
            &&& after.ending().contains(pid)
            &&& after@.dom().contains(pid)
            &&& !after@[pid].active
            &&& after@[pid].id == before@[pid].id
            &&& after@[pid].spec == before@[pid].spec
            &&& after@[pid].factory == before@[pid].factory
        },
        forall|p: ProcessId|
            p != pid ==> {
                &&& #[trigger] after@.dom().contains(p) <==> before@.dom().contains(p)
                &&& after@.dom().contains(p) ==> after@[p] == before@[p]
                &&& after.ending().contains(p) <==> before.ending().contains(p)
            },
{
}

/// A child is forgotten on request exactly where it is known and does not run. No other child
/// changes.
pub proof fn only_children_that_do_not_run_are_forgotten<F>(
    before: DynamicSupervisorState<F>,
    pid: ProcessId,
    after: DynamicSupervisorState<F>,
    reply: Result<(), SupervisorError>,
)
    requires
        dyn_remove_step(before, pid, after, reply),
    ensures
        !before@.dom().contains(pid) ==> reply is Err && reply->Err_0 is NotFound,
        before@.dom().contains(pid) && before@[pid].active ==> reply is Err
            && reply->Err_0 is StillRunning && after@.dom().contains(pid),
        before@.dom().contains(pid) && !before@[pid].active ==> reply is Ok && !after@.dom().contains(
            pid,
        ),
        reply is Err ==> after@ == before@,
        forall|p: ProcessId|
            p != pid ==> {
                &&& #[trigger] after@.dom().contains(p) <==> before@.dom().contains(p)
                &&& after@.dom().contains(p) ==> after@[p] == before@[p]
            },
{
}

/// A child that was asked to end can be forgotten, and its end, when it is reported, starts
/// nothing and ends nothing, whatever its restart type and the reason.
pub proof fn terminated_child_stays_down<F>(
    before: DynamicSupervisorState<F>,
    middle: DynamicSupervisorState<F>,
    asking: Result<(), SupervisorError>,
    action: DynAction,
    pid: ProcessId,
    reason: ExitReason,
    now: Instant,
    next: u64,
    after: DynamicSupervisorState<F>,
    r: (DynAction, bool),
    next_after: u64,
    removal: Result<(), SupervisorError>,
)
    requires
        before@.dom().contains(pid),
        dyn_terminate_step(before, pid, middle, asking, action),
    ensures
        dyn_exit_step(middle, pid, reason, now, next, after, r, next_after) ==> r == (
            DynAction::Nothing,
            false,
        ) && after@ == middle@ && after.restarts() == before.restarts(),
        dyn_remove_step(middle, pid, after, removal) ==> removal is Ok && !after@.dom().contains(
            pid,
        ),
{
}

/// What is told of the children tells of each one once: as many are told of as are known, and of
/// each its identifier, its restart type and, if it runs, its process.
pub proof fn every_child_is_told_of<F>(
    s: DynamicSupervisorState<F>,
    infos: Seq<DynChildInfo>,
    p: ProcessId,
)
    requires
        s.wf(),
        tells_of_all(s@, infos),
        s@.dom().contains(p),
    ensures
        infos.len() == s@.dom().len(),
        exists|i: int|
            0 <= i < infos.len() && (#[trigger] infos[i]).id@ == s@[p].id@ && infos[i].restart
                == s@[p].spec.restart && infos[i].pid == (if s@[p].active {
                Some(p)
            } else {
                None
            }),
{
    let pids = choose|pids: Seq<ProcessId>| #[trigger] dyn_infos_of(s@, pids, infos);
    children_are_known_by_process(s);
    assert(pids.to_set().contains(p));
    let i = choose|i: int| 0 <= i < pids.len() && pids[i] == p;
    assert(infos[i].id@ == s@[pids[i]].id@);
    pids.unique_seq_to_set();
}

/// A supervisor that shuts down leaves no child running and forgets none, and all are to be
/// stopped.
pub proof fn shutdown_stops_everything<F>(
    before: DynamicSupervisorState<F>,
    msg: Option<DynSupervisorMsg<F>>,
    now: Instant,
    next: u64,
    after: DynamicSupervisorState<F>,
    r: DynStep,
    next_after: u64,
)
    requires
        msg is None || msg matches Some(DynSupervisorMsg::Shutdown),
        is_dyn_step(before, msg, now, next, after, r, next_after),
    ensures
        r.ended,
        r.action == DynAction::StopAll,
        after@.dom() == before@.dom(),
        forall|p: ProcessId| #[trigger] after@.dom().contains(p) ==> !after@[p].active,
{
}

/// Only a request to shut down, the loss of all senders and the end of a child can end a
/// supervisor, and what is asked of it changes no child.
pub proof fn questions_change_nothing<F>(
    before: DynamicSupervisorState<F>,
    msg: Option<DynSupervisorMsg<F>>,
    now: Instant,
    next: u64,
    after: DynamicSupervisorState<F>,
    r: DynStep,
    next_after: u64,
)
    requires
        is_dyn_step(before, msg, now, next, after, r, next_after),
    ensures
        r.ended ==> msg is None || msg matches Some(DynSupervisorMsg::Shutdown) || msg matches Some(
            DynSupervisorMsg::ChildExited { .. },
        ),
        r.ended ==> r.action == DynAction::StopAll,
        (msg matches Some(DynSupervisorMsg::WhichChildren)) || (msg matches Some(
            DynSupervisorMsg::CountChildren,
        )) ==> after == before && r.action == DynAction::Nothing && next_after == next,
{
}

/// A message does what it asks for. A request to start a child answers with its process, which
/// then runs and is to be started, or that there is no room; a request to end one answers whether
/// it is known, and it does not run from then on; a request to forget one answers whether it could
/// be.
pub proof fn messages_do_what_they_ask<F>(
    before: DynamicSupervisorState<F>,
    msg: Option<DynSupervisorMsg<F>>,
    now: Instant,
    next: u64,
    after: DynamicSupervisorState<F>,
    r: DynStep,
    next_after: u64,
    pid: ProcessId,
)
    requires
        is_dyn_step(before, msg, now, next, after, r, next_after),
    ensures
        msg matches Some(DynSupervisorMsg::StartChild { entry }) ==> {
            ||| (r.reply matches DynReply::Started(Ok(p)) && after@.dom().contains(p) && after@[p].active
                && after@[p].spec == entry.spec && r.action == DynAction::Start(p))
            ||| ((r.reply matches DynReply::Started(Err(e)) && e == SupervisorError::MaxChildren)
                && after@ == before@ && before.children_limit() is Some)
        },
        msg == Some(DynSupervisorMsg::<F>::TerminateChild { pid }) ==> {
            &&& r.reply is Done
            &&& r.reply->Done_0 is Ok <==> before@.dom().contains(pid)
            &&& after@.dom().contains(pid) ==> !after@[pid].active && r.action == DynAction::Stop(pid)
        },
        msg == Some(DynSupervisorMsg::<F>::RemoveChild { pid }) ==> {
            &&& r.reply is Done
            &&& r.reply->Done_0 is Ok <==> before@.dom().contains(pid) && !before@[pid].active
            &&& r.reply->Done_0 is Ok ==> !after@.dom().contains(pid)
        },
        msg matches Some(DynSupervisorMsg::CountChildren) ==> (r.reply matches DynReply::Counts(counts)
            && counts.active == before@.dom().filter(|p: ProcessId| before@[p].active).len()
            && counts.specs == before@.dom().len()),
        msg matches Some(DynSupervisorMsg::WhichChildren) ==> (r.reply matches DynReply::Infos(infos)
            && tells_of_all(before@, infos@)),
{
}

/// A supervisor that is told of the end of a process and goes on knows no child that runs as it.
pub proof fn told_ends_leave_nobody_running<F>(
    before: DynamicSupervisorState<F>,
    msg: Option<DynSupervisorMsg<F>>,
    now: Instant,
    next: u64,
    after: DynamicSupervisorState<F>,
    r: DynStep,
    next_after: u64,
    pid: ProcessId,
    reason: ExitReason,
)
    requires
        is_dyn_step(before, msg, now, next, after, r, next_after),
        msg == Some(DynSupervisorMsg::<F>::ChildExited { pid, reason }),
        drawn_below(before, next),
        !r.ended,
    ensures
        !(after@.dom().contains(pid) && after@[pid].active),
{
    ended_process_does_not_run(
        before,
        pid,
        reason,
        now,
        next,
        after,
        (r.action, r.ended),
        next_after,
    );
}

} // verus!
