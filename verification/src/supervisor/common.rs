//! What both kinds of supervisor share: the restart limit and the stopping of a child.
use crate::process::{ExitReason, ProcessId};
use crate::supervisor::spec::{ShutdownStrategy, SupervisorError};
use crate::time::{elapsed, Duration, Instant};
use std::collections::VecDeque;
use vstd::prelude::*;

verus! {

/// The window of a restart limit, in nanoseconds.
pub open spec fn window_nanos(max_seconds: u32) -> nat {
    max_seconds as nat * 1_000_000_000
}

/// Whether a restart at `t` lies within the window before `now`.
pub open spec fn in_window(t: Instant, now: Instant, max_seconds: u32) -> bool {
    elapsed(t@, now@) <= window_nanos(max_seconds)
}

/// The restart times without those at the front that have left the window.
pub open spec fn pruned(times: Seq<Instant>, now: Instant, max_seconds: u32) -> Seq<Instant>
    decreases times.len(),
{
    if times.len() > 0 && !in_window(times[0], now, max_seconds) {
        pruned(times.drop_first(), now, max_seconds)
    } else {
        times
    }
}

/// Drops the restart times at the front that have left the window.
pub fn prune(times: &mut VecDeque<Instant>, now: Instant, max_seconds: u32)
    ensures
        final(times)@ == pruned(old(times)@, now, max_seconds),
{
    let window = Duration::from_secs(max_seconds as u64);
    let mut going = true;
    while going
        invariant
            window@ == window_nanos(max_seconds),
            going ==> pruned(times@, now, max_seconds) == pruned(old(times)@, now, max_seconds),
            !going ==> times@ == pruned(old(times)@, now, max_seconds),
        decreases times@.len(), going as int,
    {
        if times.len() == 0 {
            going = false;
        } else {
            let front = times[0];
            if window.less_than(now.saturating_duration_since(front)) {
                times.pop_front();
            } else {
                going = false;
            }
        }
    }
}

/// Records a restart at `now`, forgets those that have left the window, and says whether no
/// more than `max_restarts` remain. A limit of zero allows none, and records none.
pub fn check_restart_limit(
    restart_times: &mut VecDeque<Instant>,
    max_restarts: u32,
    max_seconds: u32,
    now: Instant,
) -> (r: bool)
    ensures
        if max_restarts == 0 {
            !r && final(restart_times)@ == old(restart_times)@
        } else {
            &&& final(restart_times)@ == pruned(old(restart_times)@.push(now), now, max_seconds)
            &&& r == (final(restart_times)@.len() <= max_restarts)
        },
{
    if max_restarts == 0 {
        return false;
    }
    restart_times.push_back(now);
    prune(restart_times, now, max_seconds);
    restart_times.len() <= max_restarts as usize
}

/// What is left after pruning is the end of what was there.
pub proof fn pruned_is_suffix(times: Seq<Instant>, now: Instant, max_seconds: u32)
    ensures
        pruned(times, now, max_seconds).len() <= times.len(),
        pruned(times, now, max_seconds) == times.skip(
            times.len() - pruned(times, now, max_seconds).len(),
        ),
    decreases times.len(),
{
    if times.len() > 0 && !in_window(times[0], now, max_seconds) {
        pruned_is_suffix(times.drop_first(), now, max_seconds);
        let p = pruned(times.drop_first(), now, max_seconds);
        assert(times.drop_first().skip(times.len() - 1 - p.len()) =~= times.skip(
            times.len() - p.len(),
        ));
    } else {
        assert(times.skip(0) =~= times);
    }
}

/// Whether the times never go back.
pub open spec fn in_order(times: Seq<Instant>) -> bool {
    forall|i: int, j: int| 0 <= i <= j < times.len() ==> (#[trigger] times[i])@ <= (
    #[trigger] times[j])@
}

/// With times in order, pruning leaves exactly the restarts within the window: the limit
/// counts what happened in the last `max_seconds` seconds.
pub proof fn limit_counts_the_window(times: Seq<Instant>, now: Instant, max_seconds: u32)
    requires
        in_order(times),
    ensures
        pruned(times, now, max_seconds) == times.filter(
            |t: Instant| in_window(t, now, max_seconds),
        ),
    decreases times.len(),
{
    let keep = |t: Instant| in_window(t, now, max_seconds);
    if times.len() > 0 && !in_window(times[0], now, max_seconds) {
        let rest = times.drop_first();
        assert(in_order(rest)) by {
            assert forall|i: int, j: int| 0 <= i <= j < rest.len() implies (#[trigger] rest[i])@
                <= (#[trigger] rest[j])@ by {
                assert(times[i + 1]@ <= times[j + 1]@);
            }
        }
        limit_counts_the_window(rest, now, max_seconds);
        assert(times =~= seq![times[0]] + rest);
        assert(seq![times[0]].filter(keep) =~= Seq::empty()) by {
            reveal(Seq::filter);
            let one = seq![times[0]];
            assert(one.drop_last() =~= Seq::<Instant>::empty());
            assert(Seq::<Instant>::empty().filter(keep) =~= Seq::<Instant>::empty());
            assert(!keep(one.last()));
        }
        Seq::filter_distributes_over_add(seq![times[0]], rest, keep);
        assert(times.filter(keep) =~= rest.filter(keep));
    } else {
        assert forall|i: int| 0 <= i < times.len() implies keep(#[trigger] times[i]) by {
            assert(times[0]@ <= times[i]@);
        }
        filter_keeps_all(times, keep);
    }
}

proof fn filter_keeps_all(s: Seq<Instant>, keep: spec_fn(Instant) -> bool)
    requires
        forall|i: int| 0 <= i < s.len() ==> keep(#[trigger] s[i]),
    ensures
        s.filter(keep) == s,
    decreases s.len(),
{
    reveal(Seq::filter);
    if s.len() > 0 {
        let front = s.drop_last();
        assert forall|i: int| 0 <= i < front.len() implies keep(#[trigger] front[i]) by {
            assert(front[i] == s[i]);
        }
        filter_keeps_all(front, keep);
        assert(s =~= front.push(s.last()));
    }
}

/// What is done to stop a child's task.
#[derive(Debug, Clone, Copy, PartialEq, Eq, Structural)]
pub enum StopPlan {
    /// Nothing: there is no task to stop, or no way to ask it.
    Nothing,
    /// Ask it to end, if it can be asked, and cancel it.
    Cancel { signal: bool },
    /// Ask it to end, and wait for it this long.
    Wait(Duration),
}

/// How a child's task is stopped, given whether it can be asked to end and whether it runs.
pub fn shutdown_child_task(strategy: ShutdownStrategy, has_signal: bool, has_task: bool) -> (r:
    StopPlan)
    ensures
        r == (match strategy {
            ShutdownStrategy::BrutalKill if has_task => StopPlan::Cancel { signal: has_signal },
            ShutdownStrategy::Timeout(d) if has_signal && has_task => StopPlan::Wait(d),
            _ => StopPlan::Nothing,
        }),
{
    match strategy {
        ShutdownStrategy::BrutalKill => if has_task {
            StopPlan::Cancel { signal: has_signal }
        } else {
            StopPlan::Nothing
        },
        ShutdownStrategy::Timeout(d) => if has_signal && has_task {
            StopPlan::Wait(d)
        } else {
            StopPlan::Nothing
        },
    }
}

/// How the task of a child ended.
#[derive(Debug)]
pub enum ChildOutcome {
    /// It was asked to end.
    Signalled,
    /// It ended by itself.
    Finished(ExitReason),
    /// It panicked.
    Panicked,
}

/// The exit reason that the supervisor is told.
pub fn child_exit_reason(outcome: ChildOutcome) -> (r: ExitReason)
    ensures
        match outcome {
            ChildOutcome::Signalled => r == ExitReason::Normal,
            ChildOutcome::Finished(reason) => r == reason,
            ChildOutcome::Panicked => r is Abnormal && r->Abnormal_0@ == "panicked"@,
        },
{
    match outcome {
        ChildOutcome::Signalled => ExitReason::Normal,
        ChildOutcome::Finished(reason) => reason,
        ChildOutcome::Panicked => ExitReason::Abnormal("panicked".to_string()),
    }
}

/// How to reach a supervisor: its process, and the sending end `T` for messages to it.
#[derive(Clone)]
pub struct SupervisorHandle<T> {
    pid: ProcessId,
    msg_tx: T,
}

impl<T> SupervisorHandle<T> {
    pub closed spec fn process(self) -> ProcessId {
        self.pid
    }

    pub closed spec fn messages(self) -> T {
        self.msg_tx
    }

    pub fn new(pid: ProcessId, msg_tx: T) -> (r: Self)
        ensures
            r.process() == pid,
            r.messages() == msg_tx,
    {
        Self { pid, msg_tx }
    }

    /// The process of the supervisor.
    pub fn pid(&self) -> (r: ProcessId)
        ensures
            r == self.process(),
    {
        self.pid
    }

    /// The sending end for messages to the supervisor.
    pub fn msg_tx(&self) -> (r: &T)
        ensures
            *r == self.messages(),
    {
        &self.msg_tx
    }
}

/// The outcome of asking a supervisor: its answer, or that it is gone where none came.
pub fn answer_or_gone<A>(answer: Option<A>) -> (r: Result<A, SupervisorError>)
    ensures
        r == (match answer {
            Some(a) => Ok::<A, SupervisorError>(a),
            None => Err(SupervisorError::Gone),
        }),
{
    match answer {
        Some(a) => Ok(a),
        None => Err(SupervisorError::Gone),
    }
}

/// The outcome of asking a supervisor for what it can refuse: its answer, or that it is gone
/// where none came.
pub fn outcome_or_gone<A>(answer: Option<Result<A, SupervisorError>>) -> (r: Result<
    A,
    SupervisorError,
>)
    ensures
        r == (match answer {
            Some(a) => a,
            None => Err::<A, SupervisorError>(SupervisorError::Gone),
        }),
{
    match answer {
        Some(a) => a,
        None => Err(SupervisorError::Gone),
    }
}

} // verus!
