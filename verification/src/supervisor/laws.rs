//! What supervision promises: of each step of a supervisor of ordered children, said of the
//! children, the processes they run as, and the stops and starts that the step asks for.
use crate::counter::{draws_add_up, draws_count_up};
use crate::process::{ExitReason, ProcessId};
use crate::supervisor::common::{in_order, in_window, limit_counts_the_window};
use crate::supervisor::engine::{
    child_pid, delete_step, exit_step, first_exited, first_exited_is_unique, first_with_id,
    infos_of, pids_drawn_below, restart_range, restart_step, restarted, running_count, starts,
    stops, stops_go_backwards, stops_reach_every_running_child, terminate_step, with_pid, Action,
    ChildInfo, ChildState, Reply, Step, SupervisorState,
};
use crate::supervisor::spec::{RestartStrategy, RestartType, SupervisorError};
use crate::time::Instant;
use vstd::prelude::*;

verus! {

/// Each stop is of a child in the range, as the process that it runs as and in the way that its
/// description says.
pub proof fn stops_are_of_running_children<F>(
    children: Seq<ChildState<F>>,
    lo: int,
    hi: int,
    a: Action,
)
    requires
        0 <= lo <= hi <= children.len(),
        children.len() <= usize::MAX,
        stops(children, lo, hi).contains(a),
    ensures
        a matches Action::Stop { index, pid, shutdown } && {
            &&& lo <= index < hi
            &&& children[index as int].pid == Some(pid)
            &&& children[index as int].spec.shutdown == shutdown
        },
    decreases hi - lo,
{
    if hi > lo {
        let rest = stops(children, lo, hi - 1);
        let all = stops(children, lo, hi);
        let k = choose|k: int| 0 <= k < all.len() && all[k] == a;
        match children[hi - 1].pid {
            Some(_) => {
                if k > 0 {
                    assert(rest[k - 1] == a);
                    stops_are_of_running_children(children, lo, hi - 1, a);
                }
            },
            None => {
                assert(rest[k] == a);
                stops_are_of_running_children(children, lo, hi - 1, a);
            },
        }
    }
}

/// A supervisor that ends leaves nothing behind: when the end of a child ends it, no child has a
/// process any more, every other child that had one is stopped, as that process, and nothing is
/// started.
pub proof fn ended_supervisor_leaves_no_child<F>(
    before: SupervisorState<F>,
    id: Seq<char>,
    pid: ProcessId,
    reason: ExitReason,
    now: Instant,
    next: u64,
    after: SupervisorState<F>,
    r: Step,
    next_after: u64,
)
    requires
        exit_step(before, id, pid, reason, now, next, after, r, next_after),
        r.ended,
        before.children@.len() <= usize::MAX,
    ensures
        after.children@.len() == before.children@.len(),
        forall|j: int|
            0 <= j < after.children@.len() ==> (#[trigger] after.children@[j]).pid is None,
        forall|j: int|
            #![trigger before.children@[j]]
            0 <= j < before.children@.len() && before.children@[j].pid is Some && !(
            before.children@[j].spec.id@ == id && before.children@[j].pid == Some(pid))
                ==> r.actions@.contains(
                Action::Stop {
                    index: j as usize,
                    pid: before.children@[j].pid->0,
                    shutdown: before.children@[j].spec.shutdown,
                },
            ),
        forall|k: int| 0 <= k < r.actions@.len() ==> (#[trigger] r.actions@[k]) is Stop,
{
    first_exited_is_unique(before.children@, id, pid);
    let i = choose|i: int| #[trigger] first_exited(before.children@, id, pid, i);
    let len = before.children@.len() as int;
    let cleared = before.children@.update(i, with_pid(before.children@[i], None));
    assert forall|j: int|
        #![trigger before.children@[j]]
        0 <= j < len && before.children@[j].pid is Some && !(before.children@[j].spec.id@ == id
            && before.children@[j].pid == Some(pid)) implies r.actions@.contains(
        Action::Stop {
            index: j as usize,
            pid: before.children@[j].pid->0,
            shutdown: before.children@[j].spec.shutdown,
        },
    ) by {
        assert(cleared[j] == before.children@[j]);
        stops_reach_every_running_child(cleared, 0, len, j);
    }
    assert forall|k: int| 0 <= k < r.actions@.len() implies (#[trigger] r.actions@[k]) is Stop by {
        assert(r.actions@.contains(r.actions@[k]));
        stops_are_of_running_children(cleared, 0, len, r.actions@[k]);
    }
}

/// The stops and starts of a step account for what became of every child. When a child ended,
/// every other child that does not run as the process it had is stopped, every child that runs
/// as another process than before is started as that process, a stop is of a process that a
/// child had, a start is of a process that a child has, and nothing else of a child changes.
pub proof fn actions_account_for_the_children<F>(
    before: SupervisorState<F>,
    id: Seq<char>,
    pid: ProcessId,
    reason: ExitReason,
    now: Instant,
    next: u64,
    after: SupervisorState<F>,
    r: Step,
    next_after: u64,
    i: int,
)
    requires
        exit_step(before, id, pid, reason, now, next, after, r, next_after),
        0 <= i < before.children@.len(),
        before.children@[i].spec.id@ == id,
        before.children@[i].pid == Some(pid),
        forall|j: int|
            0 <= j < i && (#[trigger] before.children@[j]).spec.id@ == id
                ==> before.children@[j].pid != Some(pid),
        before.children@.len() <= usize::MAX,
    ensures
        after.children@.len() == before.children@.len(),
        forall|j: int|
            #![trigger after.children@[j]]
            0 <= j < before.children@.len() ==> {
                &&& after.children@[j].spec == before.children@[j].spec
                &&& after.children@[j].factory == before.children@[j].factory
                &&& after.children@[j].manually_stopped == before.children@[j].manually_stopped
            },
        after.children@[i].pid is Some ==> r.actions@.contains(
            Action::Start { index: i as usize, pid: after.children@[i].pid->0 },
        ),
        forall|j: int|
            #![trigger before.children@[j]]
            #![trigger after.children@[j]]
            0 <= j < before.children@.len() && j != i && after.children@[j].pid
                != before.children@[j].pid ==> {
                &&& before.children@[j].pid is Some ==> r.actions@.contains(
                    Action::Stop {
                        index: j as usize,
                        pid: before.children@[j].pid->0,
                        shutdown: before.children@[j].spec.shutdown,
                    },
                )
                &&& after.children@[j].pid is Some ==> r.actions@.contains(
                    Action::Start { index: j as usize, pid: after.children@[j].pid->0 },
                )
            },
        forall|k: int|
            0 <= k < r.actions@.len() ==> match #[trigger] r.actions@[k] {
                Action::Stop { index, pid: p, shutdown } => {
                    &&& index < before.children@.len()
                    &&& index != i
                    &&& before.children@[index as int].pid == Some(p)
                    &&& before.children@[index as int].spec.shutdown == shutdown
                },
                Action::Start { index, pid: p } => {
                    &&& index < after.children@.len()
                    &&& after.children@[index as int].pid == Some(p)
                },
            },
{
    assert(first_exited(before.children@, id, pid, i));
    first_exited_is_unique(before.children@, id, pid);
    let len = before.children@.len() as int;
    let cleared = before.children@.update(i, with_pid(before.children@[i], None));
    let (lo, hi) = restart_range(before.strategy, i, len);
    let gone = stops(cleared, lo, hi);
    let come = starts(lo, hi, next);
    if !r.ended && after.children@ == restarted(cleared, lo, hi, next) {
        assert forall|j: int| lo <= j < hi && r.actions@ == gone + come implies r.actions@.contains(
            Action::Start { index: j as usize, pid: (#[trigger] after.children@[j]).pid->0 },
        ) by {
            assert((gone + come)[gone.len() + (j - lo)] == come[j - lo]);
        }
    }
    assert forall|j: int|
        #![trigger before.children@[j]]
        0 <= j < len && j != i && before.children@[j].pid is Some && after.children@[j].pid
            != before.children@[j].pid implies r.actions@.contains(
        Action::Stop {
            index: j as usize,
            pid: before.children@[j].pid->0,
            shutdown: before.children@[j].spec.shutdown,
        },
    ) by {
        assert(cleared[j] == before.children@[j]);
        let a = Action::Stop {
            index: j as usize,
            pid: before.children@[j].pid->0,
            shutdown: before.children@[j].spec.shutdown,
        };
        if r.ended {
            stops_reach_every_running_child(cleared, 0, len, j);
        } else {
            stops_reach_every_running_child(cleared, lo, hi, j);
            let k = choose|k: int| 0 <= k < gone.len() && gone[k] == a;
            assert((gone + come)[k] == a);
        }
    }
    assert forall|k: int| 0 <= k < r.actions@.len() implies match #[trigger] r.actions@[k] {
        Action::Stop { index, pid: p, shutdown } => {
            &&& index < before.children@.len()
            &&& index != i
            &&& before.children@[index as int].pid == Some(p)
            &&& before.children@[index as int].spec.shutdown == shutdown
        },
        Action::Start { index, pid: p } => {
            &&& index < after.children@.len()
            &&& after.children@[index as int].pid == Some(p)
        },
    } by {
        if r.ended {
            assert(stops(cleared, 0, len).contains(r.actions@[k]));
            stops_are_of_running_children(cleared, 0, len, r.actions@[k]);
        } else if k < gone.len() {
            assert(gone[k] == r.actions@[k]);
            stops_are_of_running_children(cleared, lo, hi, r.actions@[k]);
        } else {
            assert(come[k - gone.len()] == r.actions@[k]);
        }
    }
}

/// A step first stops, the last child first, and then starts, the first child first.
pub proof fn stops_come_before_starts<F>(
    before: SupervisorState<F>,
    id: Seq<char>,
    pid: ProcessId,
    reason: ExitReason,
    now: Instant,
    next: u64,
    after: SupervisorState<F>,
    r: Step,
    next_after: u64,
    a: int,
    b: int,
)
    requires
        exit_step(before, id, pid, reason, now, next, after, r, next_after),
        before.children@.len() <= usize::MAX,
        0 <= a < b < r.actions@.len(),
    ensures
        match (r.actions@[a], r.actions@[b]) {
            (Action::Stop { index: first, .. }, Action::Stop { index: second, .. }) => first
                > second,
            (Action::Stop { .. }, Action::Start { .. }) => true,
            (Action::Start { .. }, Action::Stop { .. }) => false,
            (Action::Start { index: first, .. }, Action::Start { index: second, .. }) => first
                < second,
        },
{
    first_exited_is_unique(before.children@, id, pid);
    let i = choose|i: int| #[trigger] first_exited(before.children@, id, pid, i);
    let len = before.children@.len() as int;
    let cleared = before.children@.update(i, with_pid(before.children@[i], None));
    let (lo, hi) = restart_range(before.strategy, i, len);
    if r.ended {
        stops_go_backwards(cleared, 0, len, a, b);
    } else {
        let gone = stops(cleared, lo, hi);
        let come = starts(lo, hi, next);
        if b < gone.len() {
            stops_go_backwards(cleared, lo, hi, a, b);
        } else {
            assert(r.actions@[b] == come[b - gone.len()]);
            if a < gone.len() {
                assert(gone.contains(gone[a]));
                stops_are_of_running_children(cleared, lo, hi, gone[a]);
            } else {
                assert(r.actions@[a] == come[a - gone.len()]);
            }
        }
    }
}

/// The strategy says who is restarted with a child that is to be: under one-for-one only that
/// child, under one-for-all every child, under rest-for-one that child and those behind it. Who
/// is restarted is stopped where it ran, started, and runs as the process it was started as; who
/// is not is left as it was.
pub proof fn restarts_follow_the_strategy<F>(
    before: SupervisorState<F>,
    id: Seq<char>,
    pid: ProcessId,
    reason: ExitReason,
    now: Instant,
    next: u64,
    after: SupervisorState<F>,
    r: Step,
    next_after: u64,
    i: int,
    j: int,
)
    requires
        exit_step(before, id, pid, reason, now, next, after, r, next_after),
        0 <= i < before.children@.len(),
        before.children@[i].spec.id@ == id,
        before.children@[i].pid == Some(pid),
        forall|j: int|
            0 <= j < i && (#[trigger] before.children@[j]).spec.id@ == id
                ==> before.children@[j].pid != Some(pid),
        !before.children@[i].manually_stopped,
        before.children@[i].spec.restart == RestartType::Permanent || (
        before.children@[i].spec.restart == RestartType::Transient && !(reason is Normal)),
        !r.ended,
        0 <= j < before.children@.len(),
        before.children@.len() <= usize::MAX,
    ensures
        after.children@.len() == before.children@.len(),
        ({
            let with_it = match before.strategy {
                RestartStrategy::OneForOne => j == i,
                RestartStrategy::OneForAll => true,
                RestartStrategy::RestForOne => j >= i,
            };
            if with_it {
                &&& after.children@[j].pid is Some
                &&& r.actions@.contains(
                    Action::Start { index: j as usize, pid: after.children@[j].pid->0 },
                )
                &&& j != i && before.children@[j].pid is Some ==> r.actions@.contains(
                    Action::Stop {
                        index: j as usize,
                        pid: before.children@[j].pid->0,
                        shutdown: before.children@[j].spec.shutdown,
                    },
                )
            } else {
                &&& after.children@[j] == before.children@[j]
                &&& forall|k: int|
                    0 <= k < r.actions@.len() ==> match #[trigger] r.actions@[k] {
                        Action::Stop { index, .. } => index != j,
                        Action::Start { index, .. } => index != j,
                    }
            }
        }),
{
    assert(first_exited(before.children@, id, pid, i));
    first_exited_is_unique(before.children@, id, pid);
    let len = before.children@.len() as int;
    let cleared = before.children@.update(i, with_pid(before.children@[i], None));
    let (lo, hi) = restart_range(before.strategy, i, len);
    let gone = stops(cleared, lo, hi);
    let come = starts(lo, hi, next);
    if lo <= j < hi {
        assert((gone + come)[gone.len() + (j - lo)] == come[j - lo]);
        if j != i && before.children@[j].pid is Some {
            let a = Action::Stop {
                index: j as usize,
                pid: before.children@[j].pid->0,
                shutdown: before.children@[j].spec.shutdown,
            };
            assert(cleared[j] == before.children@[j]);
            stops_reach_every_running_child(cleared, lo, hi, j);
            let k = choose|k: int| 0 <= k < gone.len() && gone[k] == a;
            assert((gone + come)[k] == a);
        }
    } else {
        assert forall|k: int| 0 <= k < r.actions@.len() implies match #[trigger] r.actions@[k] {
            Action::Stop { index, .. } => index != j,
            Action::Start { index, .. } => index != j,
        } by {
            if k < gone.len() {
                assert(gone[k] == r.actions@[k]);
                assert(gone.contains(gone[k]));
                stops_are_of_running_children(cleared, lo, hi, gone[k]);
            } else {
                assert(come[k - gone.len()] == r.actions@[k]);
            }
        }
    }
}

/// A child that is not to be restarted just does not run any more: a temporary child, a
/// transient child that ended normally, and a child that was stopped by request. Nothing is
/// stopped or started, no other child changes, and no restart is counted.
pub proof fn child_without_restart_is_left<F>(
    before: SupervisorState<F>,
    id: Seq<char>,
    pid: ProcessId,
    reason: ExitReason,
    now: Instant,
    next: u64,
    after: SupervisorState<F>,
    r: Step,
    next_after: u64,
    i: int,
)
    requires
        exit_step(before, id, pid, reason, now, next, after, r, next_after),
        0 <= i < before.children@.len(),
        before.children@[i].spec.id@ == id,
        before.children@[i].pid == Some(pid),
        forall|j: int|
            0 <= j < i && (#[trigger] before.children@[j]).spec.id@ == id
                ==> before.children@[j].pid != Some(pid),
        before.children@[i].manually_stopped || before.children@[i].spec.restart
            == RestartType::Temporary || (before.children@[i].spec.restart
            == RestartType::Transient && reason is Normal),
    ensures
        !r.ended,
        r.actions@ == Seq::<Action>::empty(),
        after.restart_times@ == before.restart_times@,
        next_after == next,
        after.children@.len() == before.children@.len(),
        after.children@[i].pid is None,
        forall|j: int|
            0 <= j < before.children@.len() && j != i ==> #[trigger] after.children@[j]
                == before.children@[j],
{
    assert(first_exited(before.children@, id, pid, i));
    first_exited_is_unique(before.children@, id, pid);
}

/// The end of a process that no child runs as is ignored.
pub proof fn stray_exits_are_ignored<F>(
    before: SupervisorState<F>,
    id: Seq<char>,
    pid: ProcessId,
    reason: ExitReason,
    now: Instant,
    next: u64,
    after: SupervisorState<F>,
    r: Step,
    next_after: u64,
)
    requires
        exit_step(before, id, pid, reason, now, next, after, r, next_after),
        forall|j: int|
            0 <= j < before.children@.len() && (#[trigger] before.children@[j]).pid == Some(pid)
                ==> before.children@[j].spec.id@ != id,
    ensures
        !r.ended,
        r.actions@ == Seq::<Action>::empty(),
        after.children@ == before.children@,
        after.restart_times@ == before.restart_times@,
        next_after == next,
{
}

/// Whether a restart at `t` happened at most so many seconds before `now`.
pub open spec fn is_recent(t: Instant, now: Instant, max_seconds: u32) -> bool {
    t@ + max_seconds * 1_000_000_000 >= now@
}

/// The limit is a rate: where a child is to be restarted, the supervisor ends exactly when this
/// restart and those of the last `max_seconds` seconds are more than `max_restarts`, or none is
/// allowed at all. Else the restart is recorded behind those of the window, and the older ones
/// are forgotten.
pub proof fn restart_limit_is_a_rate<F>(
    before: SupervisorState<F>,
    id: Seq<char>,
    pid: ProcessId,
    reason: ExitReason,
    now: Instant,
    next: u64,
    after: SupervisorState<F>,
    r: Step,
    next_after: u64,
    i: int,
)
    requires
        exit_step(before, id, pid, reason, now, next, after, r, next_after),
        0 <= i < before.children@.len(),
        before.children@[i].spec.id@ == id,
        before.children@[i].pid == Some(pid),
        forall|j: int|
            0 <= j < i && (#[trigger] before.children@[j]).spec.id@ == id
                ==> before.children@[j].pid != Some(pid),
        !before.children@[i].manually_stopped,
        before.children@[i].spec.restart == RestartType::Permanent || (
        before.children@[i].spec.restart == RestartType::Transient && !(reason is Normal)),
        in_order(before.restart_times@.push(now)),
    ensures
        ({
            let recent = before.restart_times@.filter(
                |t: Instant| is_recent(t, now, before.max_seconds),
            );
            &&& r.ended <==> before.max_restarts == 0 || recent.len() + 1 > before.max_restarts
            &&& !r.ended ==> after.restart_times@ == recent.push(now)
        }),
{
    assert(first_exited(before.children@, id, pid, i));
    first_exited_is_unique(before.children@, id, pid);
    let secs = before.max_seconds;
    let times = before.restart_times@;
    limit_counts_the_window(times.push(now), now, secs);
    let old_keep = |t: Instant| in_window(t, now, secs);
    let keep = |t: Instant| is_recent(t, now, secs);
    assert(keep =~= old_keep);
    assert(times.push(now).drop_last() =~= times);
    assert(keep(now));
    assert(times.push(now).filter(keep) =~= times.filter(keep).push(now)) by {
        reveal(Seq::filter);
    }
}

/// What is started is new: as long as the counter does not wrap around, each started process has
/// a number drawn in this step, so no child ran as it before.
pub proof fn started_processes_are_new<F>(
    before: SupervisorState<F>,
    id: Seq<char>,
    pid: ProcessId,
    reason: ExitReason,
    now: Instant,
    next: u64,
    after: SupervisorState<F>,
    r: Step,
    next_after: u64,
    k: int,
    j: int,
)
    requires
        exit_step(before, id, pid, reason, now, next, after, r, next_after),
        pids_drawn_below(before.children@, next),
        next + before.children@.len() <= u64::MAX,
        before.children@.len() <= usize::MAX,
        0 <= k < r.actions@.len(),
        r.actions@[k] is Start,
        0 <= j < before.children@.len(),
    ensures
        next <= r.actions@[k]->Start_pid.local() < next_after,
        before.children@[j].pid != Some(r.actions@[k]->Start_pid),
{
    broadcast use crate::process::types::pid_of_parts;

    first_exited_is_unique(before.children@, id, pid);
    let i = choose|i: int| #[trigger] first_exited(before.children@, id, pid, i);
    let len = before.children@.len() as int;
    let cleared = before.children@.update(i, with_pid(before.children@[i], None));
    let (lo, hi) = restart_range(before.strategy, i, len);
    if r.ended {
        assert(stops(cleared, 0, len).contains(r.actions@[k]));
        stops_are_of_running_children(cleared, 0, len, r.actions@[k]);
    } else {
        let gone = stops(cleared, lo, hi);
        let come = starts(lo, hi, next);
        if k < gone.len() {
            assert(gone.contains(gone[k]));
            stops_are_of_running_children(cleared, lo, hi, gone[k]);
        } else {
            let n = k - gone.len();
            assert(r.actions@[k] == come[n]);
            draws_count_up(next, n);
            draws_count_up(next, hi - lo);
            assert(before.children@[j].pid is Some ==> before.children@[j].pid->0.local() < next);
        }
    }
}

/// A request to stop a child stops the first with the identifier: it is marked, it does not run
/// any more, and the process that it ran as, if any, is stopped in the way its description
/// says. No other child changes.
pub proof fn terminate_stops_the_child<F>(
    before: Seq<ChildState<F>>,
    id: String,
    after: Seq<ChildState<F>>,
    r: Step,
    i: int,
)
    requires
        terminate_step(before, id, after, r),
        0 <= i < before.len(),
        before[i].spec.id@ == id@,
        forall|j: int| 0 <= j < i ==> (#[trigger] before[j]).spec.id@ != id@,
    ensures
        r.reply == Reply::Done(Ok(())),
        after.len() == before.len(),
        after[i].pid is None,
        after[i].manually_stopped,
        after[i].spec == before[i].spec,
        after[i].factory == before[i].factory,
        forall|j: int| 0 <= j < before.len() && j != i ==> #[trigger] after[j] == before[j],
        match before[i].pid {
            Some(p) => r.actions@ == seq![
                Action::Stop { index: i as usize, pid: p, shutdown: before[i].spec.shutdown },
            ],
            None => r.actions@ == Seq::<Action>::empty(),
        },
{
    assert(first_with_id(before, id@, i));
    assert(before[i].spec.id@ == id@);
    first_with_id_is_unique(before, id@);
    reveal_with_fuel(stops, 2);
    assert(stops(before, i, i + 1) =~= match before[i].pid {
        Some(p) => seq![
            Action::Stop { index: i as usize, pid: p, shutdown: before[i].spec.shutdown },
        ],
        None => Seq::<Action>::empty(),
    });
}

proof fn first_with_id_is_unique<F>(children: Seq<ChildState<F>>, id: Seq<char>)
    ensures
        forall|i: int, j: int|
            #![trigger first_with_id(children, id, i), first_with_id(children, id, j)]
            first_with_id(children, id, i) && first_with_id(children, id, j) ==> i == j,
{
    assert forall|i: int, j: int|
        #![trigger first_with_id(children, id, i), first_with_id(children, id, j)]
        first_with_id(children, id, i) && first_with_id(children, id, j) implies i == j by {
        if i < j {
            assert(children[i].spec.id@ != id);
        }
        if j < i {
            assert(children[j].spec.id@ != id);
        }
    }
}

/// A request to start a child again starts the first with the identifier where it does not run,
/// and takes back that it was stopped by request; where it runs, the request is refused and
/// nothing changes. No other child changes.
pub proof fn restart_starts_the_child<F>(
    before: Seq<ChildState<F>>,
    id: String,
    next: u64,
    after: Seq<ChildState<F>>,
    r: Step,
    next_after: u64,
    i: int,
)
    requires
        restart_step(before, id, next, after, r, next_after),
        0 <= i < before.len(),
        before[i].spec.id@ == id@,
        forall|j: int| 0 <= j < i ==> (#[trigger] before[j]).spec.id@ != id@,
    ensures
        after.len() == before.len(),
        forall|j: int| 0 <= j < before.len() && j != i ==> #[trigger] after[j] == before[j],
        before[i].pid is Some ==> {
            &&& r.reply == Reply::Done(Err(SupervisorError::StillRunning(id)))
            &&& r.actions@ == Seq::<Action>::empty()
            &&& after[i] == before[i]
            &&& next_after == next
        },
        before[i].pid is None ==> {
            &&& r.reply == Reply::Done(Ok(()))
            &&& after[i].pid == Some(ProcessId::of(0, 0, next))
            &&& !after[i].manually_stopped
            &&& after[i].spec == before[i].spec
            &&& after[i].factory == before[i].factory
            &&& r.actions@ == seq![
                Action::Start { index: i as usize, pid: ProcessId::of(0, 0, next) },
            ]
            &&& next_after == (if next == u64::MAX {
                0
            } else {
                next + 1
            })
        },
{
    assert(first_with_id(before, id@, i));
    assert(before[i].spec.id@ == id@);
    first_with_id_is_unique(before, id@);
    draws_add_up(next, 0, 0);
    assert(starts(i, i + 1, next) =~= seq![
        Action::Start { index: i as usize, pid: child_pid(next) },
    ]);
}

/// A request to forget a child forgets the first with the identifier where it does not run: the
/// others close up in their order. Where it runs, the request is refused and nothing changes.
pub proof fn delete_forgets_the_child<F>(
    before: Seq<ChildState<F>>,
    id: String,
    after: Seq<ChildState<F>>,
    r: Step,
    i: int,
)
    requires
        delete_step(before, id, after, r),
        0 <= i < before.len(),
        before[i].spec.id@ == id@,
        forall|j: int| 0 <= j < i ==> (#[trigger] before[j]).spec.id@ != id@,
    ensures
        r.actions@ == Seq::<Action>::empty(),
        before[i].pid is Some ==> {
            &&& r.reply == Reply::Done(Err(SupervisorError::StillRunning(id)))
            &&& after == before
        },
        before[i].pid is None ==> {
            &&& r.reply == Reply::Done(Ok(()))
            &&& after.len() == before.len() - 1
            &&& forall|j: int| 0 <= j < i ==> #[trigger] after[j] == before[j]
            &&& forall|j: int| i <= j < after.len() ==> #[trigger] after[j] == before[j + 1]
        },
{
    assert(first_with_id(before, id@, i));
    assert(before[i].spec.id@ == id@);
    first_with_id_is_unique(before, id@);
}

/// Requests about a child that no identifier names are refused, and change nothing.
pub proof fn unknown_children_are_refused<F>(
    before: Seq<ChildState<F>>,
    id: String,
    next: u64,
    after: Seq<ChildState<F>>,
    r: Step,
    next_after: u64,
)
    requires
        terminate_step(before, id, after, r) || delete_step(before, id, after, r) || restart_step(
            before,
            id,
            next,
            after,
            r,
            next_after,
        ),
        forall|j: int| 0 <= j < before.len() ==> (#[trigger] before[j]).spec.id@ != id@,
    ensures
        after == before,
        r.actions@ == Seq::<Action>::empty(),
        r.reply == Reply::Done(Err(SupervisorError::NotFound(id))),
{
}

/// A child that was stopped by request can be started again, and is then as before but for the
/// process it runs as; or it can be forgotten. Neither is refused.
pub proof fn stopped_child_can_come_back_or_go<F>(
    before: Seq<ChildState<F>>,
    id: String,
    middle: Seq<ChildState<F>>,
    stopping: Step,
    next: u64,
    after: Seq<ChildState<F>>,
    r: Step,
    next_after: u64,
    i: int,
)
    requires
        0 <= i < before.len(),
        before[i].spec.id@ == id@,
        forall|j: int| 0 <= j < i ==> (#[trigger] before[j]).spec.id@ != id@,
        terminate_step(before, id, middle, stopping),
        restart_step(middle, id, next, after, r, next_after) || delete_step(middle, id, after, r),
    ensures
        r.reply == Reply::Done(Ok(())),
        restart_step(middle, id, next, after, r, next_after) && after.len() == before.len() ==> {
            &&& after[i].pid == Some(ProcessId::of(0, 0, next))
            &&& after[i].spec == before[i].spec
            &&& after[i].factory == before[i].factory
            &&& !after[i].manually_stopped
        },
        delete_step(middle, id, after, r) && after.len() < before.len() ==> after
            == before.remove(i),
{
    assert(first_with_id(before, id@, i));
    terminate_stops_the_child(before, id, middle, stopping, i);
    assert(first_with_id(middle, id@, i)) by {
        assert forall|j: int| 0 <= j < i implies (#[trigger] middle[j]).spec.id@ != id@ by {
            assert(middle[j] == before[j]);
        }
    }
    if restart_step(middle, id, next, after, r, next_after) {
        restart_starts_the_child(middle, id, next, after, r, next_after, i);
    }
    if delete_step(middle, id, after, r) {
        delete_forgets_the_child(middle, id, after, r, i);
        if after.len() < before.len() {
            assert(after =~= before.remove(i));
        }
    }
}

/// A child that was stopped by request stays down: the end of the process that it ran as, which
/// is reported later, is ignored where no other child runs as it.
pub proof fn stopped_child_is_not_restarted<F>(
    before: SupervisorState<F>,
    id: String,
    middle: SupervisorState<F>,
    stopping: Step,
    i: int,
    reason: ExitReason,
    now: Instant,
    next: u64,
    after: SupervisorState<F>,
    r: Step,
    next_after: u64,
)
    requires
        0 <= i < before.children@.len(),
        before.children@[i].spec.id@ == id@,
        forall|j: int| 0 <= j < i ==> (#[trigger] before.children@[j]).spec.id@ != id@,
        before.children@[i].pid is Some,
        forall|j: int|
            0 <= j < before.children@.len() && j != i ==> (#[trigger] before.children@[j]).pid
                != before.children@[i].pid,
        terminate_step(before.children@, id, middle.children@, stopping),
        exit_step(
            middle,
            id@,
            before.children@[i].pid->0,
            reason,
            now,
            next,
            after,
            r,
            next_after,
        ),
    ensures
        !r.ended,
        r.actions@ == Seq::<Action>::empty(),
        after.children@ == middle.children@,
{
    assert(first_with_id(before.children@, id@, i));
    terminate_stops_the_child(before.children@, id, middle.children@, stopping, i);
}

/// The count of running children is the number of children that have a process; and it is the
/// number of processes in what is told of the children.
pub proof fn counts_match_the_children<F>(children: Seq<ChildState<F>>, infos: Seq<ChildInfo>)
    requires
        infos_of(children, infos),
    ensures
        running_count(children) == children.filter(|c: ChildState<F>| c.pid is Some).len(),
        running_count(children) == infos.filter(|i: ChildInfo| i.pid is Some).len(),
        infos.len() == children.len(),
    decreases children.len(),
{
    reveal(Seq::filter);
    if children.len() > 0 {
        let front = infos.drop_last();
        assert(infos_of(children.drop_last(), front)) by {
            assert forall|i: int| 0 <= i < front.len() implies {
                &&& (#[trigger] front[i]).id@ == children.drop_last()[i].spec.id@
                &&& front[i].pid == children.drop_last()[i].pid
                &&& front[i].restart == children.drop_last()[i].spec.restart
            } by {
                assert(front[i] == infos[i]);
            }
        }
        counts_match_the_children(children.drop_last(), front);
        assert(infos.last().pid == children.last().pid);
    }
}

} // verus!
