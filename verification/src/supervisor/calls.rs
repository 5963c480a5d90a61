//! What supervisors promise from one call to the next.
use crate::counter::{drawn_number, draws_add_up, draws_count_up, Counter};
use crate::process::{ExitReason, ProcessId};
use crate::supervisor::common::{
    answer_or_gone, check_restart_limit, child_exit_reason, in_order, in_window,
    limit_counts_the_window, outcome_or_gone, prune, shutdown_child_task, ChildOutcome, StopPlan,
};
use crate::supervisor::dynamic::{
    active_set, children_are_known_by_process, DynAction, DynChildCounts, DynStep,
    DynSupervisorMsg, DynamicSupervisorSpec, DynamicSupervisorState,
};
use crate::supervisor::dynamic_laws::{
    children_are_started_while_there_is_room, drawn_below, ended_process_does_not_run,
};
use crate::supervisor::engine::{
    child_pid, Action, ChildCounts, ChildEntry, ChildInfo, Reply, Step, SupervisorMsg, SupervisorState,
};
use crate::supervisor::laws::{
    child_without_restart_is_left, counts_match_the_children, delete_forgets_the_child, is_recent,
    restart_starts_the_child, restarts_follow_the_strategy, terminate_stops_the_child,
};
use crate::supervisor::spec::{
    ChildSpec, RestartStrategy, RestartType, ShutdownStrategy, SupervisorError, SupervisorSpec,
};
use crate::time::Instant;
use std::collections::VecDeque;
use vstd::prelude::*;

verus! {

proof fn filter_is_no_longer(s: Seq<ChildInfo>)
    ensures
        s.filter(|c: ChildInfo| c.pid is Some).len() <= s.len(),
    decreases s.len(),
{
    reveal(Seq::filter);
    if s.len() > 0 {
        filter_is_no_longer(s.drop_last());
    }
}

/// A step that ends a supervisor leaves nothing running: no child has a process any more, and
/// every child that had one is stopped, as that process, but for the one whose end was reported.
pub proof fn ended_steps_leave_no_child<F>(
    before: SupervisorState<F>,
    msg: Option<SupervisorMsg<F>>,
    now: Instant,
    ids: Counter,
    after: SupervisorState<F>,
    ids_after: Counter,
    r: Step,
    j: int,
)
    requires
        exists|m: &mut SupervisorState<F>, c: &mut Counter|
            *m == before && *final(m) == after && *c == ids && *final(c) == ids_after
                && #[trigger] call_ensures(
                SupervisorState::<F>::step,
                (m, msg, now, c),
                r,
            ),
        r.ended,
    ensures
        0 <= j < after.children@.len() ==> after.children@[j].pid is None,
        0 <= j < before.children@.len() && before.children@[j].pid is Some && !(msg matches Some(
            SupervisorMsg::ChildExited { child_id, pid, reason },
        ) && before.children@[j].spec.id@ == child_id@ && before.children@[j].pid == Some(pid))
            ==> r.actions@.contains(
            Action::Stop {
                index: j as usize,
                pid: before.children@[j].pid->0,
                shutdown: before.children@[j].spec.shutdown,
            },
        ),
{
}

/// The end of a child that passes the limit leaves nothing running either: every other child that
/// had a process is stopped, as that process.
pub proof fn passing_the_limit_stops_everyone<F>(
    before: SupervisorState<F>,
    child_id: String,
    pid: ProcessId,
    reason: ExitReason,
    now: Instant,
    ids: Counter,
    after: SupervisorState<F>,
    ids_after: Counter,
    r: Step,
    j: int,
)
    requires
        exists|m: &mut SupervisorState<F>, c: &mut Counter|
            *m == before && *final(m) == after && *c == ids && *final(c) == ids_after
                && #[trigger] call_ensures(
                SupervisorState::<F>::child_exited,
                (m, &child_id, pid, &reason, now, c),
                r,
            ),
        r.ended,
    ensures
        0 <= j < after.children@.len() ==> after.children@[j].pid is None,
        0 <= j < before.children@.len() && before.children@[j].pid is Some && before.children@[j].pid
            != Some(pid) ==> r.actions@.contains(
            Action::Stop {
                index: j as usize,
                pid: before.children@[j].pid->0,
                shutdown: before.children@[j].spec.shutdown,
            },
        ),
{
}

/// A supervisor that is told to shut down, or that nobody can reach any more, ends; and no request
/// but that ends one.
pub proof fn only_shutdown_and_failures_end<F>(
    before: SupervisorState<F>,
    msg: Option<SupervisorMsg<F>>,
    now: Instant,
    ids: Counter,
    after: SupervisorState<F>,
    ids_after: Counter,
    r: Step,
)
    requires
        exists|m: &mut SupervisorState<F>, c: &mut Counter|
            *m == before && *final(m) == after && *c == ids && *final(c) == ids_after
                && #[trigger] call_ensures(
                SupervisorState::<F>::step,
                (m, msg, now, c),
                r,
            ),
    ensures
        msg is None || msg->0 is Shutdown ==> r.ended,
        r.ended ==> msg is None || msg->0 is Shutdown || msg->0 is ChildExited,
{
}

/// The children that are counted are those that are listed: as many as there are descriptions, and
/// as many run as have a process.
pub proof fn counts_agree_with_the_listing<F>(
    s: SupervisorState<F>,
    counts: ChildCounts,
    infos: Vec<ChildInfo>,
    i: int,
)
    requires
        call_ensures(SupervisorState::<F>::count_children, (&s,), counts),
        call_ensures(SupervisorState::<F>::which_children, (&s,), infos),
    ensures
        counts.specs == infos@.len(),
        counts.active == infos@.filter(|c: ChildInfo| c.pid is Some).len(),
        counts.active <= counts.specs,
        0 <= i < s.children@.len() ==> infos@[i].id@ == s.children@[i].spec.id@ && infos@[i].pid
            == s.children@[i].pid && infos@[i].restart == s.children@[i].spec.restart,
{
    counts_match_the_children(s.children@, infos@);
    filter_is_no_longer(infos@);
}

/// A child that is added runs, behind the others, as the process that is answered and to be
/// started; the others stay.
pub proof fn added_children_run<F>(
    before: SupervisorState<F>,
    entry: ChildEntry<F>,
    ids: Counter,
    after: SupervisorState<F>,
    ids_after: Counter,
    r: Step,
    was: ChildCounts,
    counts: ChildCounts,
)
    requires
        exists|m: &mut SupervisorState<F>, c: &mut Counter|
            *m == before && *final(m) == after && *c == ids && *final(c) == ids_after
                && #[trigger] call_ensures(
                SupervisorState::<F>::add_child,
                (m, entry, c),
                r,
            ),
        call_ensures(SupervisorState::<F>::count_children, (&before,), was),
        call_ensures(SupervisorState::<F>::count_children, (&after,), counts),
    ensures
        r.reply matches Reply::Started(pid) && after.children@.last().pid == Some(pid) && r.actions@
            == seq![
            Action::Start { index: before.children@.len() as usize, pid },
        ],
        after.children@.drop_last() == before.children@,
        after.children@.last().spec == entry.spec,
        counts.specs == was.specs + 1,
        counts.active == was.active + 1,
{
    assert(after.children@.drop_last() =~= before.children@);
}

/// A child that was stopped by request does not run and is marked; that is told whether or not it
/// ran, and one that there is not is told too.
pub proof fn stopped_children_do_not_run<F>(
    before: SupervisorState<F>,
    id: String,
    after: SupervisorState<F>,
    r: Step,
    i: int,
)
    requires
        exists|m: &mut SupervisorState<F>|
            *m == before && *final(m) == after && #[trigger] call_ensures(
                SupervisorState::<F>::terminate_child,
                (m, id),
                r,
            ),
        0 <= i < before.children@.len(),
        before.children@[i].spec.id@ == id@,
        forall|j: int| 0 <= j < i ==> (#[trigger] before.children@[j]).spec.id@ != id@,
    ensures
        r.reply == Reply::Done(Ok(())),
        !r.ended,
        after.children@[i].pid is None,
        after.children@[i].manually_stopped,
        before.children@[i].pid is Some ==> r.actions@.len() == 1 && r.actions@[0] is Stop
            && r.actions@[0]->Stop_pid == before.children@[i].pid->0,
        before.children@[i].pid is None ==> r.actions@.len() == 0,
{
    terminate_stops_the_child(before.children@, id, after.children@, r, i);
}

/// A child that does not run can be started again by request, and then runs; one that runs cannot.
pub proof fn restarted_children_run<F>(
    before: SupervisorState<F>,
    id: String,
    ids: Counter,
    after: SupervisorState<F>,
    ids_after: Counter,
    r: Step,
    i: int,
)
    requires
        exists|m: &mut SupervisorState<F>, c: &mut Counter|
            *m == before && *final(m) == after && *c == ids && *final(c) == ids_after
                && #[trigger] call_ensures(
                SupervisorState::<F>::restart_child,
                (m, id, c),
                r,
            ),
        0 <= i < before.children@.len(),
        before.children@[i].spec.id@ == id@,
        forall|j: int| 0 <= j < i ==> (#[trigger] before.children@[j]).spec.id@ != id@,
    ensures
        !r.ended,
        after.children@[i].pid is Some,
        before.children@[i].pid is None ==> r.reply == Reply::Done(Ok(())) && r.actions@.len() == 1
            && r.actions@[0] is Start && after.children@[i].pid == Some(r.actions@[0]->Start_pid),
        before.children@[i].pid is Some ==> r.reply is Done && r.reply->Done_0 is Err && after.children@
            == before.children@,
{
    restart_starts_the_child(before.children@, id, ids@, after.children@, r, ids_after@, i);
    if before.children@[i].pid is Some {
        assert(after.children@ =~= before.children@);
    }
}

/// A child that does not run can be forgotten, and one that runs cannot.
pub proof fn only_stopped_children_are_forgotten<F>(
    before: SupervisorState<F>,
    id: String,
    after: SupervisorState<F>,
    r: Step,
    i: int,
)
    requires
        exists|m: &mut SupervisorState<F>|
            *m == before && *final(m) == after && #[trigger] call_ensures(
                SupervisorState::<F>::delete_child,
                (m, id),
                r,
            ),
        0 <= i < before.children@.len(),
        before.children@[i].spec.id@ == id@,
        forall|j: int| 0 <= j < i ==> (#[trigger] before.children@[j]).spec.id@ != id@,
    ensures
        !r.ended,
        r.actions@.len() == 0,
        before.children@[i].pid is None ==> r.reply == Reply::Done(Ok(())) && after.children@.len()
            == before.children@.len() - 1,
        before.children@[i].pid is Some ==> r.reply is Done && r.reply->Done_0 is Err && after.children@
            == before.children@,
{
    delete_forgets_the_child(before.children@, id, after.children@, r, i);
}

/// A child is restarted by its type: a permanent one always, a transient one unless it ended
/// normally, a temporary one never.
pub proof fn types_say_who_is_restarted(
    reason: ExitReason,
    permanent: bool,
    transient: bool,
    temporary: bool,
)
    requires
        call_ensures(RestartType::should_restart, (&RestartType::Permanent, &reason), permanent),
        call_ensures(RestartType::should_restart, (&RestartType::Transient, &reason), transient),
        call_ensures(RestartType::should_restart, (&RestartType::Temporary, &reason), temporary),
    ensures
        permanent,
        transient <==> !(reason is Normal),
        !temporary,
{
}

/// A restart is allowed exactly where it and those of the last `max_seconds` seconds are no more
/// than the limit, and a limit of zero allows none.
pub proof fn restarts_are_limited(
    before: VecDeque<Instant>,
    max_restarts: u32,
    max_seconds: u32,
    now: Instant,
    after: VecDeque<Instant>,
    r: bool,
)
    requires
        exists|m: &mut VecDeque<Instant>|
            *m == before && *final(m) == after && #[trigger] call_ensures(
                check_restart_limit,
                (m, max_restarts, max_seconds, now),
                r,
            ),
        in_order(before@.push(now)),
    ensures
        ({
            let recent = before@.filter(|t: Instant| is_recent(t, now, max_seconds));
            &&& r <==> max_restarts > 0 && recent.len() + 1 <= max_restarts
            &&& max_restarts > 0 ==> after@ == recent.push(now)
        }),
{
    limit_counts_the_window(before@.push(now), now, max_seconds);
    let old_keep = |t: Instant| in_window(t, now, max_seconds);
    let keep = |t: Instant| is_recent(t, now, max_seconds);
    assert(keep =~= old_keep);
    assert(before@.push(now).drop_last() =~= before@);
    assert(keep(now));
    assert(before@.push(now).filter(keep) =~= before@.filter(keep).push(now)) by {
        reveal(Seq::filter);
    }
}

/// Pruning keeps the restarts of the window, in their order, and nothing else.
pub proof fn pruning_keeps_the_window(
    before: VecDeque<Instant>,
    max_seconds: u32,
    now: Instant,
    after: VecDeque<Instant>,
)
    requires
        exists|m: &mut VecDeque<Instant>|
            *m == before && *final(m) == after && #[trigger] call_ensures(
                prune,
                (m, now, max_seconds),
                (),
            ),
        in_order(before@),
    ensures
        after@ == before@.filter(|t: Instant| is_recent(t, now, max_seconds)),
{
    limit_counts_the_window(before@, now, max_seconds);
    let old_keep = |t: Instant| in_window(t, now, max_seconds);
    let keep = |t: Instant| is_recent(t, now, max_seconds);
    assert(keep =~= old_keep);
}

/// A child's task is cancelled where it is to be ended at once, and waited for where it is given
/// time and can be asked; without a task nothing is done.
pub proof fn children_are_given_their_time(
    strategy: ShutdownStrategy,
    has_signal: bool,
    has_task: bool,
    r: StopPlan,
)
    requires
        call_ensures(shutdown_child_task, (strategy, has_signal, has_task), r),
    ensures
        !has_task ==> r is Nothing,
        strategy is BrutalKill && has_task ==> r is Cancel,
        r is Cancel ==> strategy is BrutalKill,
        strategy matches ShutdownStrategy::Timeout(d) ==> (has_task && has_signal ==> r
            == StopPlan::Wait(d)),
        r is Wait ==> has_signal && has_task,
{
}

/// A child that was asked to end ended normally, one that panicked abnormally, and one that ended
/// by itself for the reason that it gave.
pub proof fn outcomes_are_told_apart(
    reason: ExitReason,
    asked: ExitReason,
    finished: ExitReason,
    panicked: ExitReason,
)
    requires
        call_ensures(child_exit_reason, (ChildOutcome::Signalled,), asked),
        call_ensures(child_exit_reason, (ChildOutcome::Finished(reason),), finished),
        call_ensures(child_exit_reason, (ChildOutcome::Panicked,), panicked),
    ensures
        asked is Normal,
        finished == reason,
        panicked matches ExitReason::Abnormal(why) && why@ == "panicked"@,
{
}

/// Where no answer came the supervisor is gone, and else its answer counts.
pub proof fn no_answer_is_a_supervisor_gone<A>(
    answer: Option<A>,
    r: Result<A, SupervisorError>,
    outcome: Option<Result<A, SupervisorError>>,
    s: Result<A, SupervisorError>,
)
    requires
        call_ensures(answer_or_gone::<A>, (answer,), r),
        call_ensures(outcome_or_gone::<A>, (outcome,), s),
    ensures
        answer is None ==> r == Err::<A, SupervisorError>(SupervisorError::Gone),
        answer is Some ==> r == Ok::<A, SupervisorError>(answer->0),
        outcome is None ==> s == Err::<A, SupervisorError>(SupervisorError::Gone),
        outcome is Some ==> s == outcome->0,
{
}

/// After the end of a process was handled and the supervisor goes on, no child known under it
/// counts as running, whatever its restart type and the reason.
pub proof fn handled_exits_leave_nobody_running<F>(
    before: DynamicSupervisorState<F>,
    pid: ProcessId,
    reason: ExitReason,
    now: Instant,
    ids: Counter,
    after: DynamicSupervisorState<F>,
    ids_after: Counter,
    r: (DynAction, bool),
)
    requires
        exists|m: &mut DynamicSupervisorState<F>, c: &mut Counter|
            *m == before && *final(m) == after && *c == ids && *final(c) == ids_after
                && #[trigger] call_ensures(
                DynamicSupervisorState::<F>::child_exited,
                (m, pid, &reason, now, c),
                r,
            ),
        !r.1,
        drawn_below(before, ids@),
    ensures
        !(after@.dom().contains(pid) && after@[pid].active),
{
    ended_process_does_not_run(before, pid, reason, now, ids@, after, r, ids_after@);
}

/// A child that was started counts as running until it is asked to end; then it is known, but does
/// not run, and can be forgotten, after which it is known no more.
pub proof fn dynamic_children_come_and_go<F>(
    before: DynamicSupervisorState<F>,
    entry: ChildEntry<F>,
    ids: Counter,
    started: DynamicSupervisorState<F>,
    ids_after: Counter,
    r: (Result<ProcessId, SupervisorError>, DynAction),
    asked: DynamicSupervisorState<F>,
    q: (Result<(), SupervisorError>, DynAction),
    forgotten: DynamicSupervisorState<F>,
    s: Result<(), SupervisorError>,
    was: DynChildCounts,
    up: DynChildCounts,
    down: DynChildCounts,
    gone: DynChildCounts,
)
    requires
        before.wf(),
        drawn_below(before, ids@),
        exists|m: &mut DynamicSupervisorState<F>, c: &mut Counter|
            *m == before && *final(m) == started && *c == ids && *final(c) == ids_after
                && #[trigger] call_ensures(
                DynamicSupervisorState::<F>::start_child,
                (m, entry, c),
                r,
            ),
        r.0 is Ok,
        exists|m: &mut DynamicSupervisorState<F>|
            *m == started && *final(m) == asked && #[trigger] call_ensures(
                DynamicSupervisorState::<F>::terminate_child,
                (m, r.0->Ok_0),
                q,
            ),
        exists|m: &mut DynamicSupervisorState<F>|
            *m == asked && *final(m) == forgotten && #[trigger] call_ensures(
                DynamicSupervisorState::<F>::remove_child,
                (m, r.0->Ok_0),
                s,
            ),
        call_ensures(DynamicSupervisorState::<F>::count_children, (&before,), was),
        call_ensures(DynamicSupervisorState::<F>::count_children, (&started,), up),
        call_ensures(DynamicSupervisorState::<F>::count_children, (&asked,), down),
        call_ensures(DynamicSupervisorState::<F>::count_children, (&forgotten,), gone),
    ensures
        r.1 == DynAction::Start(r.0->Ok_0),
        up.active == was.active + 1,
        up.specs == was.specs + 1,
        q.0 is Ok,
        q.1 == DynAction::Stop(r.0->Ok_0),
        down.active == was.active,
        down.specs == up.specs,
        s is Ok,
        gone.active == was.active,
        gone.specs == was.specs,
{
    children_are_started_while_there_is_room(
        before,
        entry,
        ids@,
        started,
        r.0,
        r.1,
        ids_after@,
    );
    let pid = r.0->Ok_0;
    children_are_known_by_process(before);
    assert(active_set(asked@) =~= active_set(before@));
    assert(asked@.dom() =~= started@.dom());
    assert(active_set(forgotten@) =~= active_set(before@));
    assert(forgotten@.dom() =~= before@.dom());
}

/// A shutdown asks all children to end, leaves none running, and ends the supervisor.
pub proof fn dynamic_shutdown_leaves_nobody_running<F>(
    before: DynamicSupervisorState<F>,
    after: DynamicSupervisorState<F>,
    r: (DynAction, bool),
    counts: DynChildCounts,
    was: DynChildCounts,
)
    requires
        exists|m: &mut DynamicSupervisorState<F>|
            *m == before && *final(m) == after && #[trigger] call_ensures(
                DynamicSupervisorState::<F>::shut_down,
                (m,),
                r,
            ),
        call_ensures(DynamicSupervisorState::<F>::count_children, (&before,), was),
        call_ensures(DynamicSupervisorState::<F>::count_children, (&after,), counts),
    ensures
        r == (DynAction::StopAll, true),
        counts.active == 0,
        counts.specs == was.specs,
{
}

/// A supervisor starts with all its children running, in their order, each as a process of its
/// own.
pub proof fn supervisors_start_with_all_children<F>(
    spec: SupervisorSpec,
    entries: Vec<ChildEntry<F>>,
    ids: Counter,
    ids_after: Counter,
    r: (SupervisorState<F>, Vec<Action>),
    i: int,
    j: int,
)
    requires
        exists|c: &mut Counter|
            *c == ids && *final(c) == ids_after && #[trigger] call_ensures(
                SupervisorState::<F>::start,
                (spec, entries, c),
                r,
            ),
        0 <= i < j < entries@.len(),
        ids@ + entries@.len() <= u64::MAX,
    ensures
        r.0.children@.len() == entries@.len(),
        r.0.children@[i].pid is Some,
        r.0.children@[i].pid != r.0.children@[j].pid,
        r.0.children@[i].spec == entries@[i].spec,
        r.1@.len() == entries@.len(),
        r.1@[i] == (Action::Start { index: i as usize, pid: r.0.children@[i].pid->0 }),
        r.0.strategy == spec.strategy,
        r.0.max_restarts == spec.max_restarts,
        r.0.max_seconds == spec.max_seconds,
        r.0.restart_times@.len() == 0,
{
    broadcast use crate::process::types::pid_of_parts;

    draws_count_up(ids@, i);
    draws_count_up(ids@, j);
    assert(child_pid(drawn_number(ids@, i)).local() == ids@ + i);
    assert(child_pid(drawn_number(ids@, j)).local() == ids@ + j);
}

/// Children that are added together run behind the others, in their order, each as the process
/// that is answered for it and to be started; the others stay.
pub proof fn children_added_together_run<F>(
    before: SupervisorState<F>,
    entries: Vec<ChildEntry<F>>,
    ids: Counter,
    after: SupervisorState<F>,
    ids_after: Counter,
    r: Step,
    k: int,
)
    requires
        exists|m: &mut SupervisorState<F>, c: &mut Counter|
            *m == before && *final(m) == after && *c == ids && *final(c) == ids_after
                && #[trigger] call_ensures(
                SupervisorState::<F>::add_children,
                (m, entries, c),
                r,
            ),
        0 <= k < entries@.len(),
    ensures
        r.reply is StartedAll,
        r.reply->StartedAll_0@.len() == entries@.len(),
        after.children@.len() == before.children@.len() + entries@.len(),
        after.children@.take(before.children@.len() as int) == before.children@,
        after.children@[before.children@.len() + k].spec == entries@[k].spec,
        after.children@[before.children@.len() + k].pid == Some(r.reply->StartedAll_0@[k]),
        r.actions@[k] == (Action::Start {
            index: (before.children@.len() + k) as usize,
            pid: r.reply->StartedAll_0@[k],
        }),
{
    let e = entries@[k];
}

/// A known child of a dynamic supervisor is started by its own factory.
pub proof fn children_have_their_factory<F>(
    s: DynamicSupervisorState<F>,
    pid: ProcessId,
    r: Option<&F>,
)
    requires
        call_ensures(DynamicSupervisorState::<F>::factory, (&s, pid), r),
    ensures
        r is Some <==> s@.dom().contains(pid),
        r is Some ==> *r->0 == s@[pid].factory,
{
}

/// An error of a supervisor says what was refused, and names the child that it is about.
pub proof fn supervisor_errors_say_what_was_refused(
    e: SupervisorError,
    r: String,
)
    requires
        call_ensures(SupervisorError::to_string, (&e,), r),
    ensures
        e matches SupervisorError::NotFound(id) ==> r@ == "child not found: "@ + id@,
        e is Gone ==> r@ == "supervisor gone"@,
        e is MaxChildren ==> r@ == "max_children limit reached"@,
        e matches SupervisorError::StillRunning(id) ==> r@ == "child is still running: "@ + id@,
{
}

/// A supervisor is described as it was told, and else allows three restarts in five seconds;
/// children come in the order in which they were added.
pub proof fn descriptions_are_as_told(
    strategy: RestartStrategy,
    base: SupervisorSpec,
    n: u32,
    a: SupervisorSpec,
    b: SupervisorSpec,
    child: ChildSpec,
    c: SupervisorSpec,
)
    requires
        call_ensures(SupervisorSpec::new, (strategy,), base),
        call_ensures(SupervisorSpec::max_restarts, (base, n), a),
        call_ensures(SupervisorSpec::max_seconds, (a, n), b),
        call_ensures(SupervisorSpec::child, (b, child), c),
    ensures
        base.max_restarts == 3 && base.max_seconds == 5,
        a.max_restarts == n && a.max_seconds == 5,
        b.max_restarts == n && b.max_seconds == n,
        c.children@ == b.children@.push(child),
        c.strategy == strategy,
        base.children@.len() == 0,
{
}

/// A child is described as it was told, and is else permanent and given five seconds to end.
pub proof fn children_are_described_as_told(
    id: &str,
    base: ChildSpec,
    restart: RestartType,
    a: ChildSpec,
    shutdown: ShutdownStrategy,
    b: ChildSpec,
)
    requires
        call_ensures(ChildSpec::new, (id,), base),
        call_ensures(ChildSpec::restart, (base, restart), a),
        call_ensures(ChildSpec::shutdown, (a, shutdown), b),
    ensures
        base.id@ == id@ && base.restart == RestartType::Permanent,
        base.shutdown matches ShutdownStrategy::Timeout(d) && d@ == 5_000_000_000,
        a.restart == restart && a.shutdown == base.shutdown,
        b.restart == restart && b.shutdown == shutdown,
        b.id@ == id@,
{
}

/// A dynamic supervisor is described as it was told, and else allows three restarts in five
/// seconds and any number of children.
pub proof fn dynamic_descriptions_are_as_told(
    base: DynamicSupervisorSpec,
    n: u32,
    limit: usize,
    a: DynamicSupervisorSpec,
    b: DynamicSupervisorSpec,
    c: DynamicSupervisorSpec,
)
    requires
        call_ensures(DynamicSupervisorSpec::new, (), base),
        call_ensures(DynamicSupervisorSpec::max_restarts, (base, n), a),
        call_ensures(DynamicSupervisorSpec::max_seconds, (a, n), b),
        call_ensures(DynamicSupervisorSpec::max_children, (b, limit), c),
    ensures
        base.max_restarts == 3 && base.max_seconds == 5 && base.max_children is None,
        a.max_restarts == n && a.max_seconds == 5,
        b.max_restarts == n && b.max_seconds == n && b.max_children is None,
        c.max_restarts == n && c.max_seconds == n && c.max_children == Some(limit),
{
}

/// A supervisor that is asked to add a child has it behind the others, running as the process that
/// it answers.
pub proof fn asking_adds_a_child<F>(
    before: SupervisorState<F>,
    entry: ChildEntry<F>,
    now: Instant,
    ids: Counter,
    after: SupervisorState<F>,
    ids_after: Counter,
    r: Step,
)
    requires
        exists|m: &mut SupervisorState<F>, c: &mut Counter|
            *m == before && *final(m) == after && *c == ids && *final(c) == ids_after
                && #[trigger] call_ensures(
                SupervisorState::<F>::step,
                (m, Some(SupervisorMsg::AddChild { entry }), now, c),
                r,
            ),
    ensures
        !r.ended,
        after.children@.len() == before.children@.len() + 1,
        after.children@.drop_last() == before.children@,
        after.children@.last().spec == entry.spec,
        after.children@.last().factory == entry.factory,
        r.reply matches Reply::Started(pid) && after.children@.last().pid == Some(pid) && r.actions@
            == seq![
            Action::Start { index: before.children@.len() as usize, pid },
        ],
{
    assert(after.children@.drop_last() =~= before.children@);
    draws_add_up(ids@, 0, 0);
    assert(r.actions@ =~= seq![
        Action::Start {
            index: before.children@.len() as usize,
            pid: after.children@.last().pid->0,
        },
    ]);
}

/// A supervisor that is asked to stop a child stops it, and the child does not run from then on.
pub proof fn asking_stops_a_child<F>(
    before: SupervisorState<F>,
    id: String,
    i: int,
    now: Instant,
    ids: Counter,
    after: SupervisorState<F>,
    ids_after: Counter,
    r: Step,
)
    requires
        exists|m: &mut SupervisorState<F>, c: &mut Counter|
            *m == before && *final(m) == after && *c == ids && *final(c) == ids_after
                && #[trigger] call_ensures(
                SupervisorState::<F>::step,
                (m, Some(SupervisorMsg::TerminateChild { id }), now, c),
                r,
            ),
        0 <= i < before.children@.len(),
        before.children@[i].spec.id@ == id@,
        forall|j: int| 0 <= j < i ==> (#[trigger] before.children@[j]).spec.id@ != id@,
    ensures
        !r.ended,
        r.reply == Reply::Done(Ok(())),
        after.children@[i].pid is None,
        after.children@[i].manually_stopped,
        before.children@[i].pid matches Some(p) ==> r.actions@.contains(
            Action::Stop { index: i as usize, pid: p, shutdown: before.children@[i].spec.shutdown },
        ),
{
    terminate_stops_the_child(before.children@, id, after.children@, r, i);
    if before.children@[i].pid is Some {
        assert(r.actions@[0] is Stop);
    }
}

/// A supervisor that is asked to start a child again starts it where it does not run, and refuses
/// else.
pub proof fn asking_restarts_a_child<F>(
    before: SupervisorState<F>,
    id: String,
    i: int,
    now: Instant,
    ids: Counter,
    after: SupervisorState<F>,
    ids_after: Counter,
    r: Step,
)
    requires
        exists|m: &mut SupervisorState<F>, c: &mut Counter|
            *m == before && *final(m) == after && *c == ids && *final(c) == ids_after
                && #[trigger] call_ensures(
                SupervisorState::<F>::step,
                (m, Some(SupervisorMsg::RestartChild { id }), now, c),
                r,
            ),
        0 <= i < before.children@.len(),
        before.children@[i].spec.id@ == id@,
        forall|j: int| 0 <= j < i ==> (#[trigger] before.children@[j]).spec.id@ != id@,
    ensures
        !r.ended,
        after.children@[i].pid is Some,
        before.children@[i].pid is None ==> r.reply == Reply::Done(Ok(())) && r.actions@ == seq![
            Action::Start { index: i as usize, pid: after.children@[i].pid->0 },
        ],
        before.children@[i].pid is Some ==> r.reply == Reply::Done(
            Err(SupervisorError::StillRunning(id)),
        ) && r.actions@.len() == 0,
{
    restart_starts_the_child(before.children@, id, ids@, after.children@, r, ids_after@, i);
}

/// A supervisor that is asked to forget a child forgets it where it does not run, and refuses
/// else.
pub proof fn asking_forgets_a_child<F>(
    before: SupervisorState<F>,
    id: String,
    i: int,
    now: Instant,
    ids: Counter,
    after: SupervisorState<F>,
    ids_after: Counter,
    r: Step,
)
    requires
        exists|m: &mut SupervisorState<F>, c: &mut Counter|
            *m == before && *final(m) == after && *c == ids && *final(c) == ids_after
                && #[trigger] call_ensures(
                SupervisorState::<F>::step,
                (m, Some(SupervisorMsg::DeleteChild { id }), now, c),
                r,
            ),
        0 <= i < before.children@.len(),
        before.children@[i].spec.id@ == id@,
        forall|j: int| 0 <= j < i ==> (#[trigger] before.children@[j]).spec.id@ != id@,
    ensures
        !r.ended,
        r.actions@.len() == 0,
        before.children@[i].pid is None ==> r.reply == Reply::Done(Ok(())) && after.children@
            == before.children@.remove(i),
        before.children@[i].pid is Some ==> r.reply == Reply::Done(
            Err(SupervisorError::StillRunning(id)),
        ) && after.children@ == before.children@,
{
    delete_forgets_the_child(before.children@, id, after.children@, r, i);
    if before.children@[i].pid is None {
        assert(after.children@ =~= before.children@.remove(i));
    }
}

/// A supervisor that is asked for its children tells of them as they are, and changes nothing.
pub proof fn asking_tells_of_the_children<F>(
    before: SupervisorState<F>,
    now: Instant,
    ids: Counter,
    after: SupervisorState<F>,
    ids_after: Counter,
    r: Step,
    last: SupervisorState<F>,
    ids_last: Counter,
    s: Step,
    i: int,
)
    requires
        exists|m: &mut SupervisorState<F>, c: &mut Counter|
            *m == before && *final(m) == after && *c == ids && *final(c) == ids_after
                && #[trigger] call_ensures(
                SupervisorState::<F>::step,
                (m, Some(SupervisorMsg::CountChildren), now, c),
                r,
            ),
        exists|m: &mut SupervisorState<F>, c: &mut Counter|
            *m == before && *final(m) == last && *c == ids && *final(c) == ids_last
                && #[trigger] call_ensures(
                SupervisorState::<F>::step,
                (m, Some(SupervisorMsg::WhichChildren), now, c),
                s,
            ),
    ensures
        after.children@ == before.children@,
        last.children@ == before.children@,
        !r.ended && !s.ended,
        r.actions@.len() == 0 && s.actions@.len() == 0,
        r.reply is Counts,
        s.reply is Infos,
        r.reply->Counts_0.specs == before.children@.len(),
        r.reply->Counts_0.active == s.reply->Infos_0@.filter(|c: ChildInfo| c.pid is Some).len(),
        s.reply->Infos_0@.len() == before.children@.len(),
        0 <= i < before.children@.len() ==> s.reply->Infos_0@[i].id@ == before.children@[i].spec.id@
            && s.reply->Infos_0@[i].pid == before.children@[i].pid,
{
    counts_match_the_children(before.children@, s.reply->Infos_0@);
    if 0 <= i < before.children@.len() {
        let info = s.reply->Infos_0@[i];
    }
}

/// A supervisor that is told of the end of a child restarts it as its type says: a child that is
/// to be restarted runs again, with those that the strategy names, unless the limit ends the
/// supervisor; one that is not does not run, and nobody else is touched.
pub proof fn telling_of_an_end_restarts_by_type<F>(
    before: SupervisorState<F>,
    child_id: String,
    pid: ProcessId,
    reason: ExitReason,
    i: int,
    j: int,
    now: Instant,
    ids: Counter,
    after: SupervisorState<F>,
    ids_after: Counter,
    r: Step,
)
    requires
        exists|m: &mut SupervisorState<F>, c: &mut Counter|
            *m == before && *final(m) == after && *c == ids && *final(c) == ids_after
                && #[trigger] call_ensures(
                SupervisorState::<F>::step,
                (m, Some(SupervisorMsg::ChildExited { child_id, pid, reason }), now, c),
                r,
            ),
        0 <= i < before.children@.len(),
        before.children@[i].spec.id@ == child_id@,
        before.children@[i].pid == Some(pid),
        forall|j: int|
            0 <= j < i && (#[trigger] before.children@[j]).spec.id@ == child_id@
                ==> before.children@[j].pid != Some(pid),
        0 <= j < before.children@.len(),
        before.children@.len() <= usize::MAX,
    ensures
        ({
            let c = before.children@[i];
            let due = !c.manually_stopped && (c.spec.restart == RestartType::Permanent || (
            c.spec.restart == RestartType::Transient && !(reason is Normal)));
            let with_it = match before.strategy {
                RestartStrategy::OneForOne => j == i,
                RestartStrategy::OneForAll => true,
                RestartStrategy::RestForOne => j >= i,
            };
            &&& !due ==> !r.ended && r.actions@.len() == 0 && after.children@[i].pid is None && (j != i
                ==> after.children@[j] == before.children@[j])
            &&& due && !r.ended && with_it ==> after.children@[j].pid is Some && r.actions@.contains(
                Action::Start { index: j as usize, pid: after.children@[j].pid->0 },
            )
            &&& due && !r.ended && !with_it ==> after.children@[j] == before.children@[j]
        }),
{
    let c = before.children@[i];
    let due = !c.manually_stopped && (c.spec.restart == RestartType::Permanent || (c.spec.restart
        == RestartType::Transient && !(reason is Normal)));
    if due && !r.ended {
        restarts_follow_the_strategy(
            before,
            child_id@,
            pid,
            reason,
            now,
            ids@,
            after,
            r,
            ids_after@,
            i,
            j,
        );
    }
    if !due {
        child_without_restart_is_left(
            before,
            child_id@,
            pid,
            reason,
            now,
            ids@,
            after,
            r,
            ids_after@,
            i,
        );
    }
}

/// No step changes the rules of a supervisor.
pub proof fn rules_stay<F>(
    before: SupervisorState<F>,
    msg: Option<SupervisorMsg<F>>,
    now: Instant,
    ids: Counter,
    after: SupervisorState<F>,
    ids_after: Counter,
    r: Step,
    d: DynamicSupervisorState<F>,
    ask: Option<DynSupervisorMsg<F>>,
    e: DynamicSupervisorState<F>,
    s: DynStep,
)
    requires
        exists|m: &mut SupervisorState<F>, c: &mut Counter|
            *m == before && *final(m) == after && *c == ids && *final(c) == ids_after
                && #[trigger] call_ensures(
                SupervisorState::<F>::step,
                (m, msg, now, c),
                r,
            ),
        exists|m: &mut DynamicSupervisorState<F>, c: &mut Counter|
            *m == d && *final(m) == e && *c == ids && *final(c) == ids_after
                && #[trigger] call_ensures(
                DynamicSupervisorState::<F>::step,
                (m, ask, now, c),
                s,
            ),
    ensures
        after.strategy == before.strategy,
        after.max_restarts == before.max_restarts,
        after.max_seconds == before.max_seconds,
        e.restart_limit() == d.restart_limit(),
        e.window() == d.window(),
        e.children_limit() == d.children_limit(),
{
}

} // verus!
