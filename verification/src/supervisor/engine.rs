//! The supervisor of a fixed order of children.
//!
//! A supervisor is a state and what each message does to it: the new state, the children to
//! stop and start, in order, and the answer. Starting and stopping themselves are done by the
//! caller.
use crate::counter::{drawn_number, draws_add_up, draws_are_unique, draws_count_up, Counter};
use crate::process::{ExitReason, ProcessId};
use crate::supervisor::common::{check_restart_limit, pruned};
use crate::supervisor::spec::{
    ChildSpec, RestartStrategy, RestartType, ShutdownStrategy, SupervisorError, SupervisorSpec,
};
use crate::time::Instant;
use std::collections::VecDeque;
use vstd::prelude::*;

verus! {

/// A child to supervise: its description, and what starts it.
pub struct ChildEntry<F> {
    pub spec: ChildSpec,
    pub factory: F,
}

impl<F> ChildEntry<F> {
    pub fn new(spec: ChildSpec, factory: F) -> (r: Self)
        ensures
            r.spec == spec,
            r.factory == factory,
    {
        Self { spec, factory }
    }
}

/// A child as the supervisor knows it.
pub struct ChildState<F> {
    pub spec: ChildSpec,
    pub factory: F,
    /// The process that runs it, if one does.
    pub pid: Option<ProcessId>,
    /// Whether it was stopped by request.
    pub manually_stopped: bool,
}

/// How many children there are, and how many of them run.
#[derive(Debug, Clone, Copy, PartialEq, Eq, Structural)]
pub struct ChildCounts {
    pub specs: usize,
    pub active: usize,
}

/// What is told of a child.
#[derive(Debug)]
pub struct ChildInfo {
    pub id: String,
    pub pid: Option<ProcessId>,
    pub restart: RestartType,
}

/// What the caller has to do, in order.
#[derive(Debug, Clone, Copy, PartialEq, Eq, Structural)]
pub enum Action {
    /// Start the child at the index, as this process.
    Start { index: usize, pid: ProcessId },
    /// Stop this process, which ran the child at the index.
    Stop { index: usize, pid: ProcessId, shutdown: ShutdownStrategy },
}

/// The number of the first process that a supervisor starts.
pub const FIRST_CHILD_ID: u64 = 1_000_000;

/// The identity of the child process with a number.
pub open spec fn child_pid(number: u64) -> ProcessId {
    ProcessId::of(0, 0, number)
}

/// A child, run by another process or none.
pub open spec fn with_pid<F>(c: ChildState<F>, pid: Option<ProcessId>) -> ChildState<F> {
    ChildState { spec: c.spec, factory: c.factory, pid, manually_stopped: c.manually_stopped }
}

/// The children of which none from `lo` on runs.
pub open spec fn stopped_from<F>(children: Seq<ChildState<F>>, lo: int) -> Seq<ChildState<F>> {
    Seq::new(
        children.len(),
        |j: int|
            if j >= lo {
                with_pid(children[j], None)
            } else {
                children[j]
            },
    )
}

/// The children of which all from `lo` on run, as processes numbered from `next` on.
pub open spec fn started_from<F>(children: Seq<ChildState<F>>, lo: int, next: u64) -> Seq<
    ChildState<F>,
> {
    Seq::new(
        children.len(),
        |j: int|
            if j >= lo {
                with_pid(children[j], Some(child_pid(drawn_number(next, j - lo))))
            } else {
                children[j]
            },
    )
}

/// The stops of the running children with indexes from `lo` up to `hi`, the last first.
pub open spec fn stops<F>(children: Seq<ChildState<F>>, lo: int, hi: int) -> Seq<Action>
    decreases hi - lo,
{
    if hi <= lo {
        Seq::empty()
    } else {
        let c = children[hi - 1];
        let rest = stops(children, lo, hi - 1);
        match c.pid {
            Some(pid) => seq![
                Action::Stop { index: (hi - 1) as usize, pid, shutdown: c.spec.shutdown },
            ] + rest,
            None => rest,
        }
    }
}

/// The starts of the children with indexes from `lo` up to `hi`, the first first, as processes
/// numbered from `next` on.
pub open spec fn starts(lo: int, hi: int, next: u64) -> Seq<Action> {
    Seq::new(
        (if hi > lo {
            hi - lo
        } else {
            0
        }) as nat,
        |k: int|
            Action::Start { index: (lo + k) as usize, pid: child_pid(drawn_number(next, k)) },
    )
}

/// Whether the child at the index is the first with the identifier.
pub open spec fn first_with_id<F>(children: Seq<ChildState<F>>, id: Seq<char>, i: int) -> bool {
    &&& 0 <= i < children.len()
    &&& children[i].spec.id@ == id
    &&& forall|j: int| 0 <= j < i ==> (#[trigger] children[j]).spec.id@ != id
}

/// Whether some child has the identifier.
pub open spec fn has_id<F>(children: Seq<ChildState<F>>, id: Seq<char>) -> bool {
    exists|i: int| 0 <= i < children.len() && (#[trigger] children[i]).spec.id@ == id
}

/// Whether the child at the index is the one with the identifier that runs as the process.
pub open spec fn is_exited<F>(c: ChildState<F>, id: Seq<char>, pid: ProcessId) -> bool {
    c.spec.id@ == id && c.pid == Some(pid)
}

/// Whether the child at the index is the first with the identifier that runs as the process.
pub open spec fn first_exited<F>(
    children: Seq<ChildState<F>>,
    id: Seq<char>,
    pid: ProcessId,
    i: int,
) -> bool {
    &&& 0 <= i < children.len()
    &&& is_exited(children[i], id, pid)
    &&& forall|j: int| 0 <= j < i ==> !is_exited(#[trigger] children[j], id, pid)
}

/// The number of children that run.
pub open spec fn running_count<F>(children: Seq<ChildState<F>>) -> nat
    decreases children.len(),
{
    if children.len() == 0 {
        0
    } else {
        running_count(children.drop_last()) + (if children.last().pid is Some {
            1nat
        } else {
            0nat
        })
    }
}

/// A supervisor: its rules, its children in order, and its recent restarts.
pub struct SupervisorState<F> {
    pub strategy: RestartStrategy,
    pub max_restarts: u32,
    pub max_seconds: u32,
    pub children: Vec<ChildState<F>>,
    pub restart_times: VecDeque<Instant>,
}

/// A message to a supervisor.
pub enum SupervisorMsg<F> {
    ChildExited { child_id: String, pid: ProcessId, reason: ExitReason },
    AddChild { entry: ChildEntry<F> },
    AddChildren { entries: Vec<ChildEntry<F>> },
    Shutdown,
    TerminateChild { id: String },
    RestartChild { id: String },
    DeleteChild { id: String },
    CountChildren,
    WhichChildren,
}

/// The answer to a message.
#[derive(Debug)]
pub enum Reply {
    Nothing,
    Started(ProcessId),
    StartedAll(Vec<ProcessId>),
    Done(Result<(), SupervisorError>),
    Counts(ChildCounts),
    Infos(Vec<ChildInfo>),
}

/// What a message led to.
pub struct Step {
    pub actions: Vec<Action>,
    pub reply: Reply,
    /// Whether the supervisor has ended.
    pub ended: bool,
}

impl<F> SupervisorState<F> {
    /// All that a change of the children leaves alone.
    pub open spec fn same_rules(self, other: SupervisorState<F>) -> bool {
        &&& self.strategy == other.strategy
        &&& self.max_restarts == other.max_restarts
        &&& self.max_seconds == other.max_seconds
    }

    /// The restart times after a restart at `now` was recorded.
    pub open spec fn recorded(self, now: Instant) -> Seq<Instant> {
        if self.max_restarts == 0 {
            self.restart_times@
        } else {
            pruned(self.restart_times@.push(now), now, self.max_seconds)
        }
    }

    /// Whether a restart at `now` is within the limit.
    pub open spec fn within_limit(self, now: Instant) -> bool {
        self.max_restarts > 0 && self.recorded(now).len() <= self.max_restarts
    }

    /// The supervisor with all its children started, in order, and their starts.
    pub fn start(spec: SupervisorSpec, entries: Vec<ChildEntry<F>>, ids: &mut Counter) -> (r: (
        Self,
        Vec<Action>,
    ))
        ensures
            r.0.strategy == spec.strategy,
            r.0.max_restarts == spec.max_restarts,
            r.0.max_seconds == spec.max_seconds,
            r.0.restart_times@ == Seq::<Instant>::empty(),
            r.0.children@ == started_from(
                Seq::new(entries@.len(), |j: int| new_child(entries@[j])),
                0,
                old(ids)@,
            ),
            r.1@ == starts(0, entries@.len() as int, old(ids)@),
            r.0.children@.len() == entries@.len(),
            r.1@.len() == entries@.len(),
            forall|j: int|
                0 <= j < entries@.len() ==> {
                    &&& (#[trigger] r.0.children@[j]).spec == entries@[j].spec
                    &&& r.0.children@[j].factory == entries@[j].factory
                    &&& !r.0.children@[j].manually_stopped
                    &&& r.0.children@[j].pid is Some
                    &&& r.1@[j] == Action::Start {
                        index: j as usize,
                        pid: r.0.children@[j].pid->0,
                    }
                },
            final(ids)@ == drawn_number(old(ids)@, entries@.len() as int),
    {
        let mut state = SupervisorState {
            strategy: spec.strategy,
            max_restarts: spec.max_restarts,
            max_seconds: spec.max_seconds,
            children: Vec::new(),
            restart_times: VecDeque::new(),
        };
        let ghost fresh = Seq::new(entries@.len(), |j: int| new_child(entries@[j]));
        let mut entries = entries;
        let ghost all = entries@;
        let mut rest: Vec<ChildEntry<F>> = Vec::new();
        while entries.len() > 0
            invariant
                entries@.len() + rest@.len() == all.len(),
                entries@ == all.take(entries@.len() as int),
                forall|k: int|
                    0 <= k < rest@.len() ==> #[trigger] rest@[k] == all[all.len() - 1 - k],
            decreases entries@.len(),
        {
            match entries.pop() {
                Some(e) => {
                    rest.push(e);
                },
                None => {},
            }
        }
        while rest.len() > 0
            invariant
                state.strategy == spec.strategy,
                state.max_restarts == spec.max_restarts,
                state.max_seconds == spec.max_seconds,
                state.restart_times@ == Seq::<Instant>::empty(),
                state.children@.len() + rest@.len() == all.len(),
                fresh == Seq::new(all.len(), |j: int| new_child(all[j])),
                state.children@ == fresh.take(state.children@.len() as int),
                forall|k: int|
                    0 <= k < rest@.len() ==> #[trigger] rest@[k] == all[all.len() - 1 - k],
            decreases rest@.len(),
        {
            match rest.pop() {
                Some(e) => {
                    let ghost before = state.children@;
                    state.children.push(
                        ChildState {
                            spec: e.spec,
                            factory: e.factory,
                            pid: None,
                            manually_stopped: false,
                        },
                    );
                    assert(state.children@ =~= fresh.take(state.children@.len() as int));
                },
                None => {},
            }
        }
        assert(state.children@ =~= fresh);
        let mut actions: Vec<Action> = Vec::new();
        state.start_range(0, ids, &mut actions);
        assert(actions@ =~= starts(0, all.len() as int, old(ids)@));
        (state, actions)
    }

    /// Starts the child at the index.
    fn start_child(&mut self, i: usize, ids: &mut Counter, actions: &mut Vec<Action>) -> (r:
        ProcessId)
        requires
            i < old(self).children@.len(),
        ensures
            r == child_pid(old(ids)@),
            final(ids)@ == drawn_number(old(ids)@, 1),
            final(self).same_rules(*old(self)),
            final(self).restart_times == old(self).restart_times,
            final(self).children@ == old(self).children@.update(
                i as int,
                with_pid(old(self).children@[i as int], Some(r)),
            ),
            final(actions)@ == old(actions)@.push(Action::Start { index: i, pid: r }),
    {
        let pid = ProcessId::new(0, 0, ids.draw());
        self.children[i].pid = Some(pid);
        actions.push(Action::Start { index: i, pid });
        pid
    }

    /// Starts the children from the index on, in order.
    fn start_range(&mut self, lo: usize, ids: &mut Counter, actions: &mut Vec<Action>)
        requires
            lo <= old(self).children@.len(),
        ensures
            final(self).same_rules(*old(self)),
            final(self).restart_times == old(self).restart_times,
            final(self).children@ == started_from(old(self).children@, lo as int, old(ids)@),
            final(actions)@ == old(actions)@ + starts(
                lo as int,
                old(self).children@.len() as int,
                old(ids)@,
            ),
            final(ids)@ == drawn_number(old(ids)@, old(self).children@.len() - lo),
    {
        let ghost before = self.children@;
        let ghost next = ids@;
        let mut i: usize = lo;
        proof {
            draws_add_up(next, 0, 0);
        }
        while i < self.children.len()
            invariant
                lo <= i <= before.len(),
                before == old(self).children@,
                self.same_rules(*old(self)),
                self.restart_times == old(self).restart_times,
                self.children@.len() == before.len(),
                ids@ == drawn_number(next, i - lo),
                forall|j: int|
                    0 <= j < before.len() ==> #[trigger] self.children@[j] == (if lo <= j < i {
                        with_pid(before[j], Some(child_pid(drawn_number(next, j - lo))))
                    } else {
                        before[j]
                    }),
                actions@ == old(actions)@ + starts(lo as int, i as int, next),
            decreases before.len() - i,
        {
            let ghost done = actions@;
            self.start_child(i, ids, actions);
            proof {
                draws_add_up(next, i - lo, 1);
                assert(starts(lo as int, i + 1, next) =~= starts(lo as int, i as int, next).push(
                    Action::Start { index: i, pid: child_pid(drawn_number(next, i - lo)) },
                ));
            }
            i = i + 1;
        }
        assert(self.children@ =~= started_from(before, lo as int, next));
    }

    /// Stops the child at the index, which runs.
    fn stop_child(&mut self, i: usize, actions: &mut Vec<Action>)
        requires
            i < old(self).children@.len(),
            old(self).children@[i as int].pid is Some,
        ensures
            final(self).same_rules(*old(self)),
            final(self).restart_times == old(self).restart_times,
            final(self).children@ == old(self).children@.update(
                i as int,
                with_pid(old(self).children@[i as int], None),
            ),
            final(actions)@ == old(actions)@.push(
                Action::Stop {
                    index: i,
                    pid: old(self).children@[i as int].pid->0,
                    shutdown: old(self).children@[i as int].spec.shutdown,
                },
            ),
    {
        match self.children[i].pid {
            Some(pid) => {
                let shutdown = self.children[i].spec.shutdown;
                actions.push(Action::Stop { index: i, pid, shutdown });
                self.children[i].pid = None;
            },
            None => {},
        }
    }

    /// Stops the running children from the index on, the last first.
    fn stop_range(&mut self, lo: usize, actions: &mut Vec<Action>)
        requires
            lo <= old(self).children@.len(),
        ensures
            final(self).same_rules(*old(self)),
            final(self).restart_times == old(self).restart_times,
            final(self).children@ == stopped_from(old(self).children@, lo as int),
            final(actions)@ == old(actions)@ + stops(
                old(self).children@,
                lo as int,
                old(self).children@.len() as int,
            ),
    {
        let ghost before = self.children@;
        let ghost done = actions@;
        let mut i: usize = self.children.len();
        assert(done + Seq::<Action>::empty() =~= done);
        while i > lo
            invariant
                lo <= i <= before.len(),
                before == old(self).children@,
                self.same_rules(*old(self)),
                self.restart_times == old(self).restart_times,
                self.children@.len() == before.len(),
                forall|j: int|
                    0 <= j < before.len() ==> #[trigger] self.children@[j] == (if j >= i {
                        with_pid(before[j], None)
                    } else {
                        before[j]
                    }),
                actions@ + stops(before, lo as int, i as int) =~= done + stops(
                    before,
                    lo as int,
                    before.len() as int,
                ),
            decreases i,
        {
            i = i - 1;
            assert(self.children@[i as int] == before[i as int]);
            let ghost so_far = actions@;
            let runs = self.children[i].pid.is_some();
            if runs {
                self.stop_child(i, actions);
                proof {
                    let a = Action::Stop {
                        index: i,
                        pid: before[i as int].pid->0,
                        shutdown: before[i as int].spec.shutdown,
                    };
                    assert(so_far.push(a) + stops(before, lo as int, i as int) =~= so_far + (
                    seq![a] + stops(before, lo as int, i as int)));
                }
            } else {
                assert(before[i as int] == with_pid(before[i as int], None));
            }
        }
        assert(self.children@ =~= stopped_from(before, lo as int));
        assert(actions@ + stops(before, lo as int, lo as int) =~= actions@);
    }

    /// The first child with the identifier.
    fn position(&self, id: &String) -> (r: Option<usize>)
        ensures
            match r {
                Some(i) => first_with_id(self.children@, id@, i as int),
                None => !has_id(self.children@, id@),
            },
    {
        let mut i: usize = 0;
        while i < self.children.len()
            invariant
                i <= self.children@.len(),
                forall|j: int| 0 <= j < i ==> (#[trigger] self.children@[j]).spec.id@ != id@,
            decreases self.children@.len() - i,
        {
            if self.children[i].spec.id == *id {
                return Some(i);
            }
            i = i + 1;
        }
        None
    }

    /// The first child with the identifier that runs as the process.
    fn exited_position(&self, id: &String, pid: ProcessId) -> (r: Option<usize>)
        ensures
            match r {
                Some(i) => first_exited(self.children@, id@, pid, i as int),
                None => forall|j: int|
                    0 <= j < self.children@.len() ==> !is_exited(
                        #[trigger] self.children@[j],
                        id@,
                        pid,
                    ),
            },
    {
        let mut i: usize = 0;
        while i < self.children.len()
            invariant
                i <= self.children@.len(),
                forall|j: int|
                    0 <= j < i ==> !is_exited(#[trigger] self.children@[j], id@, pid),
            decreases self.children@.len() - i,
        {
            let here = match self.children[i].pid {
                Some(p) => p == pid,
                None => false,
            };
            if here && self.children[i].spec.id == *id {
                return Some(i);
            }
            i = i + 1;
        }
        None
    }

    /// A child ended. One that is not known under that identifier and process any more is
    /// ignored. It is restarted, with the others that the strategy names, unless it was stopped
    /// by request, its restart type says otherwise, or the limit is passed; then the supervisor
    /// stops all children and ends.
    pub fn child_exited(
        &mut self,
        child_id: &String,
        pid: ProcessId,
        reason: &ExitReason,
        now: Instant,
        ids: &mut Counter,
    ) -> (r: Step)
        ensures
            final(self).same_rules(*old(self)),
            r.reply is Nothing,
            exit_step(*old(self), child_id@, pid, *reason, now, old(ids)@, *final(self), r, final(ids)@),
            r.ended ==> forall|j: int|
                0 <= j < final(self).children@.len() ==> (#[trigger] final(self).children@[j]).pid is None,
            r.ended ==> forall|j: int|
                #![trigger old(self).children@[j]]
                0 <= j < old(self).children@.len() && old(self).children@[j].pid is Some && !(
                old(self).children@[j].spec.id@ == child_id@ && old(self).children@[j].pid == Some(
                    pid,
                ))
                    ==> r.actions@.contains(
                    Action::Stop {
                        index: j as usize,
                        pid: old(self).children@[j].pid->0,
                        shutdown: old(self).children@[j].spec.shutdown,
                    },
                ),
    {
        let mut actions: Vec<Action> = Vec::new();
        let ghost before = self.children@;
        let index: usize = match self.exited_position(child_id, pid) {
            Some(i) => i,
            None => {
                proof {
                    draws_add_up(ids@, 0, 0);
                }
                return Step { actions, reply: Reply::Nothing, ended: false };
            },
        };
        self.children[index].pid = None;
        let ghost cleared = before.update(index as int, with_pid(before[index as int], None));
        assert(self.children@ =~= cleared);
        if self.children[index].manually_stopped || !self.children[index].spec.restart.should_restart(
            reason,
        ) {
            return Step { actions, reply: Reply::Nothing, ended: false };
        }
        if !check_restart_limit(
            &mut self.restart_times,
            self.max_restarts,
            self.max_seconds,
            now,
        ) {
            self.stop_range(0, &mut actions);
            assert(actions@ =~= stops(cleared, 0, cleared.len() as int));
            proof {
                all_running_are_stopped(cleared);
                assert forall|j: int|
                    #![trigger before[j]]
                    0 <= j < before.len() && before[j].pid is Some && !(before[j].spec.id@
                        == child_id@ && before[j].pid == Some(pid)) implies actions@.contains(
                    Action::Stop {
                        index: j as usize,
                        pid: before[j].pid->0,
                        shutdown: before[j].spec.shutdown,
                    },
                ) by {
                    assert(cleared[j] == before[j]);
                }
            }
            return Step { actions, reply: Reply::Nothing, ended: true };
        }
        match self.strategy {
            RestartStrategy::OneForOne => {
                self.start_child(index, ids, &mut actions);
                proof {
                    draws_add_up(old(ids)@, 0, 0);
                    reveal_with_fuel(stops, 2);
                    assert(stops(cleared, index as int, index + 1) =~= Seq::<Action>::empty());
                    assert(actions@ =~= stops(cleared, index as int, index + 1) + starts(
                        index as int,
                        index + 1,
                        old(ids)@,
                    ));
                    assert(self.children@ =~= restarted(
                        cleared,
                        index as int,
                        index + 1,
                        old(ids)@,
                    ));
                }
            },
            RestartStrategy::OneForAll => {
                self.stop_range(0, &mut actions);
                self.start_range(0, ids, &mut actions);
                proof {
                    let len = cleared.len() as int;
                    assert(actions@ =~= stops(cleared, 0, len) + starts(0, len, old(ids)@));
                    assert(self.children@ =~= restarted(cleared, 0, len, old(ids)@));
                }
            },
            RestartStrategy::RestForOne => {
                self.stop_range(index, &mut actions);
                self.start_range(index, ids, &mut actions);
                proof {
                    let len = cleared.len() as int;
                    let lo = index as int;
                    assert(actions@ =~= stops(cleared, lo, len) + starts(lo, len, old(ids)@));
                    assert(self.children@ =~= restarted(cleared, lo, len, old(ids)@));
                }
            },
        }
        assert(first_exited(before, child_id@, pid, index as int));
        Step { actions, reply: Reply::Nothing, ended: false }
    }

    /// Adds a child behind the others and starts it.
    pub fn add_child(&mut self, entry: ChildEntry<F>, ids: &mut Counter) -> (r: Step)
        ensures
            final(self).same_rules(*old(self)),
            final(self).restart_times == old(self).restart_times,
            final(self).children@ == old(self).children@.push(
                with_pid(new_child(entry), Some(child_pid(old(ids)@))),
            ),
            r.reply == Reply::Started(child_pid(old(ids)@)),
            r.actions@ == seq![
                Action::Start {
                    index: old(self).children@.len() as usize,
                    pid: child_pid(old(ids)@),
                },
            ],
            !r.ended,
            final(self).children@.last().spec == entry.spec,
            final(self).children@.last().factory == entry.factory,
            final(self).children@.last().pid == Some(ProcessId::of(0, 0, old(ids)@)),
            !final(self).children@.last().manually_stopped,
            final(ids)@ == drawn_number(old(ids)@, 1),
    {
        let mut actions: Vec<Action> = Vec::new();
        let pid = self.push_started(entry, ids, &mut actions);
        assert(actions@ =~= seq![Action::Start { index: old(self).children@.len() as usize, pid }]);
        Step { actions, reply: Reply::Started(pid), ended: false }
    }

    /// Adds a child behind the others and starts it.
    fn push_started(
        &mut self,
        entry: ChildEntry<F>,
        ids: &mut Counter,
        actions: &mut Vec<Action>,
    ) -> (r: ProcessId)
        ensures
            r == child_pid(old(ids)@),
            final(ids)@ == drawn_number(old(ids)@, 1),
            final(self).same_rules(*old(self)),
            final(self).restart_times == old(self).restart_times,
            final(self).children@ == old(self).children@.push(with_pid(new_child(entry), Some(r))),
            final(actions)@ == old(actions)@.push(
                Action::Start { index: old(self).children@.len() as usize, pid: r },
            ),
    {
        let index: usize = self.children.len();
        self.children.push(
            ChildState {
                spec: entry.spec,
                factory: entry.factory,
                pid: None,
                manually_stopped: false,
            },
        );
        let pid = self.start_child(index, ids, actions);
        assert(self.children@ =~= old(self).children@.push(with_pid(new_child(entry), Some(pid))));
        pid
    }

    /// Adds children behind the others, in order, and starts them.
    pub fn add_children(&mut self, entries: Vec<ChildEntry<F>>, ids: &mut Counter) -> (r: Step)
        ensures
            final(self).same_rules(*old(self)),
            final(self).restart_times == old(self).restart_times,
            final(self).children@ == added_all(old(self).children@, entries@, old(ids)@),
            r.reply is StartedAll,
            r.reply->StartedAll_0@ == Seq::new(
                entries@.len(),
                |k: int| child_pid(drawn_number(old(ids)@, k)),
            ),
            r.actions@ == starts(
                old(self).children@.len() as int,
                (old(self).children@.len() + entries@.len()) as int,
                old(ids)@,
            ),
            !r.ended,
            final(self).children@.len() == old(self).children@.len() + entries@.len(),
            final(self).children@.take(old(self).children@.len() as int) == old(self).children@,
            forall|k: int|
                #![trigger entries@[k]]
                0 <= k < entries@.len() ==> {
                    let c = final(self).children@[old(self).children@.len() + k];
                    &&& c.spec == entries@[k].spec
                    &&& c.factory == entries@[k].factory
                    &&& c.pid == Some(r.reply->StartedAll_0@[k])
                    &&& !c.manually_stopped
                    &&& r.actions@[k] == Action::Start {
                        index: (old(self).children@.len() + k) as usize,
                        pid: r.reply->StartedAll_0@[k],
                    }
                },
            final(ids)@ == drawn_number(old(ids)@, entries@.len() as int),
    {
        let ghost all = entries@;
        let ghost before = self.children@;
        let ghost next = ids@;
        let mut entries = entries;
        let mut rest: Vec<ChildEntry<F>> = Vec::new();
        while entries.len() > 0
            invariant
                entries@.len() + rest@.len() == all.len(),
                entries@ == all.take(entries@.len() as int),
                forall|k: int|
                    0 <= k < rest@.len() ==> #[trigger] rest@[k] == all[all.len() - 1 - k],
            decreases entries@.len(),
        {
            match entries.pop() {
                Some(e) => {
                    rest.push(e);
                },
                None => {},
            }
        }
        let mut actions: Vec<Action> = Vec::new();
        let mut pids: Vec<ProcessId> = Vec::new();
        proof {
            draws_add_up(next, 0, 0);
            assert(self.children@ =~= added_all(before, all.take(0), next));
        }
        while rest.len() > 0
            invariant
                before == old(self).children@,
                self.same_rules(*old(self)),
                self.restart_times == old(self).restart_times,
                pids@.len() + rest@.len() == all.len(),
                forall|k: int|
                    0 <= k < rest@.len() ==> #[trigger] rest@[k] == all[all.len() - 1 - k],
                ids@ == drawn_number(next, pids@.len() as int),
                self.children@ == added_all(before, all.take(pids@.len() as int), next),
                pids@ == Seq::new(pids@.len(), |k: int| child_pid(drawn_number(next, k))),
                actions@ == starts(before.len() as int, (before.len() + pids@.len()) as int, next),
            decreases rest@.len(),
        {
            match rest.pop() {
                Some(e) => {
                    let ghost n = pids@.len() as int;
                    let pid = self.push_started(e, ids, &mut actions);
                    pids.push(pid);
                    proof {
                        draws_add_up(next, n, 1);
                        assert(self.children@ =~= added_all(before, all.take(n + 1), next));
                        assert(pids@ =~= Seq::new(
                            pids@.len(),
                            |k: int| child_pid(drawn_number(next, k)),
                        ));
                        assert(actions@ =~= starts(
                            before.len() as int,
                            (before.len() + pids@.len()) as int,
                            next,
                        ));
                    }
                },
                None => {},
            }
        }
        assert(all.take(all.len() as int) =~= all);
        assert(self.children@.take(before.len() as int) =~= before);
        Step { actions, reply: Reply::StartedAll(pids), ended: false }
    }

    /// Stops the first child with the identifier by request, so that it is not restarted.
    pub fn terminate_child(&mut self, id: String) -> (r: Step)
        ensures
            final(self).same_rules(*old(self)),
            final(self).restart_times == old(self).restart_times,
            !r.ended,
            terminate_step(old(self).children@, id, final(self).children@, r),
    {
        let mut actions: Vec<Action> = Vec::new();
        let ghost before = self.children@;
        match self.position(&id) {
            Some(i) => {
                assert(before[i as int].spec.id@ == id@);
                let runs = self.children[i].pid.is_some();
                if runs {
                    self.stop_child(i, &mut actions);
                }
                self.children[i].manually_stopped = true;
                proof {
                    reveal_with_fuel(stops, 2);
                    assert(actions@ =~= stops(before, i as int, i + 1));
                    assert(self.children@ =~= before.update(i as int, terminated(before[i as int])));
                }
                Step { actions, reply: Reply::Done(Ok(())), ended: false }
            },
            None => Step {
                actions,
                reply: Reply::Done(Err(SupervisorError::NotFound(id))),
                ended: false,
            },
        }
    }

    /// Starts the first child with the identifier again, if it does not run.
    pub fn restart_child(&mut self, id: String, ids: &mut Counter) -> (r: Step)
        ensures
            final(self).same_rules(*old(self)),
            final(self).restart_times == old(self).restart_times,
            !r.ended,
            restart_step(
                old(self).children@,
                id,
                old(ids)@,
                final(self).children@,
                r,
                final(ids)@,
            ),
    {
        let mut actions: Vec<Action> = Vec::new();
        let ghost before = self.children@;
        match self.position(&id) {
            Some(i) => {
                assert(before[i as int].spec.id@ == id@);
                if self.children[i].pid.is_some() {
                    return Step {
                        actions,
                        reply: Reply::Done(Err(SupervisorError::StillRunning(id))),
                        ended: false,
                    };
                }
                self.start_child(i, ids, &mut actions);
                self.children[i].manually_stopped = false;
                proof {
                    draws_add_up(old(ids)@, 0, 0);
                    assert(actions@ =~= starts(i as int, i + 1, old(ids)@));
                    assert(self.children@ =~= before.update(
                        i as int,
                        revived(before[i as int], child_pid(old(ids)@)),
                    ));
                }
                Step { actions, reply: Reply::Done(Ok(())), ended: false }
            },
            None => Step {
                actions,
                reply: Reply::Done(Err(SupervisorError::NotFound(id))),
                ended: false,
            },
        }
    }

    /// Forgets the first child with the identifier, if it does not run.
    pub fn delete_child(&mut self, id: String) -> (r: Step)
        ensures
            final(self).same_rules(*old(self)),
            final(self).restart_times == old(self).restart_times,
            !r.ended,
            delete_step(old(self).children@, id, final(self).children@, r),
    {
        let actions: Vec<Action> = Vec::new();
        match self.position(&id) {
            Some(i) => {
                assert(self.children@[i as int].spec.id@ == id@);
                if self.children[i].pid.is_some() {
                    return Step {
                        actions,
                        reply: Reply::Done(Err(SupervisorError::StillRunning(id))),
                        ended: false,
                    };
                }
                self.children.remove(i);
                Step { actions, reply: Reply::Done(Ok(())), ended: false }
            },
            None => Step {
                actions,
                reply: Reply::Done(Err(SupervisorError::NotFound(id))),
                ended: false,
            },
        }
    }

    /// How many children there are, and how many of them run.
    pub fn count_children(&self) -> (r: ChildCounts)
        ensures
            r.specs == self.children@.len(),
            r.active == running_count(self.children@),
    {
        let mut active: usize = 0;
        let mut i: usize = 0;
        assert(self.children@.take(0) =~= Seq::empty());
        while i < self.children.len()
            invariant
                i <= self.children@.len(),
                active <= i,
                active == running_count(self.children@.take(i as int)),
            decreases self.children@.len() - i,
        {
            assert(self.children@.take(i + 1).drop_last() =~= self.children@.take(i as int));
            if self.children[i].pid.is_some() {
                active = active + 1;
            }
            i = i + 1;
        }
        assert(self.children@.take(i as int) =~= self.children@);
        ChildCounts { specs: self.children.len(), active }
    }

    /// What is told of each child, in order.
    pub fn which_children(&self) -> (r: Vec<ChildInfo>)
        ensures
            infos_of(self.children@, r@),
            r@.len() == self.children@.len(),
            forall|i: int|
                0 <= i < r@.len() ==> {
                    &&& (#[trigger] r@[i]).id@ == self.children@[i].spec.id@
                    &&& r@[i].pid == self.children@[i].pid
                    &&& r@[i].restart == self.children@[i].spec.restart
                },
    {
        let mut infos: Vec<ChildInfo> = Vec::new();
        let mut i: usize = 0;
        while i < self.children.len()
            invariant
                i <= self.children@.len(),
                infos@.len() == i,
                forall|j: int|
                    0 <= j < i ==> {
                        &&& (#[trigger] infos@[j]).id@ == self.children@[j].spec.id@
                        &&& infos@[j].pid == self.children@[j].pid
                        &&& infos@[j].restart == self.children@[j].spec.restart
                    },
            decreases self.children@.len() - i,
        {
            let c = &self.children[i];
            infos.push(
                ChildInfo { id: c.spec.id.clone(), pid: c.pid, restart: c.spec.restart },
            );
            i = i + 1;
        }
        infos
    }

    /// Stops all running children, the last first, and ends.
    pub fn shut_down(&mut self) -> (r: Step)
        ensures
            final(self).same_rules(*old(self)),
            final(self).restart_times == old(self).restart_times,
            final(self).children@ == stopped_from(old(self).children@, 0),
            r.actions@ == stops(old(self).children@, 0, old(self).children@.len() as int),
            r.reply is Nothing,
            r.ended,
            forall|j: int|
                0 <= j < final(self).children@.len() ==> (#[trigger] final(self).children@[j]).pid is None,
            forall|j: int|
                #![trigger old(self).children@[j]]
                0 <= j < old(self).children@.len() && old(self).children@[j].pid is Some
                    ==> r.actions@.contains(
                    Action::Stop {
                        index: j as usize,
                        pid: old(self).children@[j].pid->0,
                        shutdown: old(self).children@[j].spec.shutdown,
                    },
                ),
    {
        let mut actions: Vec<Action> = Vec::new();
        self.stop_range(0, &mut actions);
        proof {
            all_running_are_stopped(old(self).children@);
        }
        assert(actions@ =~= stops(old(self).children@, 0, old(self).children@.len() as int));
        Step { actions, reply: Reply::Nothing, ended: true }
    }

    /// What a message leads to; without one, all senders are gone, and the supervisor shuts
    /// down.
    pub fn step(&mut self, msg: Option<SupervisorMsg<F>>, now: Instant, ids: &mut Counter) -> (r:
        Step)
        ensures
            final(self).same_rules(*old(self)),
            r.ended == ends(*old(self), msg, now),
            msg is None || (msg matches Some(SupervisorMsg::Shutdown)) ==> r.ended,
            r.ended ==> msg is None || msg matches Some(SupervisorMsg::Shutdown) || msg matches Some(
                SupervisorMsg::ChildExited { .. },
            ),
            r.ended ==> forall|j: int|
                0 <= j < final(self).children@.len() ==> (#[trigger] final(self).children@[j]).pid is None,
            r.ended ==> forall|j: int|
                #![trigger old(self).children@[j]]
                0 <= j < old(self).children@.len() && old(self).children@[j].pid is Some && !(
                msg matches Some(SupervisorMsg::ChildExited { child_id, pid, reason })
                    && old(self).children@[j].spec.id@ == child_id@ && old(self).children@[j].pid
                    == Some(pid))
                    ==> r.actions@.contains(
                    Action::Stop {
                        index: j as usize,
                        pid: old(self).children@[j].pid->0,
                        shutdown: old(self).children@[j].spec.shutdown,
                    },
                ),
            !(msg matches Some(SupervisorMsg::ChildExited { child_id, pid, reason }))
                ==> final(self).restart_times == old(self).restart_times,
            msg matches Some(SupervisorMsg::ChildExited { child_id, pid, reason })
                ==> r.reply is Nothing,
            match msg {
                Some(SupervisorMsg::ChildExited { .. }) => true,
                Some(SupervisorMsg::RestartChild { .. }) => true,
                Some(SupervisorMsg::AddChild { entry }) => final(ids)@ == drawn_number(
                    old(ids)@,
                    1,
                ),
                Some(SupervisorMsg::AddChildren { entries }) => final(ids)@ == drawn_number(
                    old(ids)@,
                    entries@.len() as int,
                ),
                _ => final(ids)@ == old(ids)@,
            },
            match msg {
                Some(SupervisorMsg::ChildExited { child_id, pid, reason }) => exit_step(
                    *old(self),
                    child_id@,
                    pid,
                    reason,
                    now,
                    old(ids)@,
                    *final(self),
                    r,
                    final(ids)@,
                ),
                Some(SupervisorMsg::AddChild { entry }) => {
                    &&& final(self).children@ == added_all(
                        old(self).children@,
                        seq![entry],
                        old(ids)@,
                    )
                    &&& r.reply == Reply::Started(child_pid(old(ids)@))
                    &&& r.actions@ == starts(
                        old(self).children@.len() as int,
                        (old(self).children@.len() + 1) as int,
                        old(ids)@,
                    )
                },
                Some(SupervisorMsg::AddChildren { entries }) => {
                    &&& final(self).children@ == added_all(
                        old(self).children@,
                        entries@,
                        old(ids)@,
                    )
                    &&& r.reply is StartedAll
                    &&& r.reply->StartedAll_0@ == Seq::new(
                        entries@.len(),
                        |k: int| child_pid(drawn_number(old(ids)@, k)),
                    )
                    &&& r.actions@ == starts(
                        old(self).children@.len() as int,
                        (old(self).children@.len() + entries@.len()) as int,
                        old(ids)@,
                    )
                },
                Some(SupervisorMsg::CountChildren) => {
                    &&& final(self).children@ == old(self).children@
                    &&& r.actions@ == Seq::<Action>::empty()
                    &&& r.reply is Counts
                    &&& r.reply->Counts_0.specs == old(self).children@.len()
                    &&& r.reply->Counts_0.active == running_count(old(self).children@)
                },
                Some(SupervisorMsg::WhichChildren) => {
                    &&& final(self).children@ == old(self).children@
                    &&& r.actions@ == Seq::<Action>::empty()
                    &&& r.reply is Infos
                    &&& infos_of(old(self).children@, r.reply->Infos_0@)
                },
                Some(SupervisorMsg::TerminateChild { id }) => terminate_step(
                    old(self).children@,
                    id,
                    final(self).children@,
                    r,
                ),
                Some(SupervisorMsg::RestartChild { id }) => restart_step(
                    old(self).children@,
                    id,
                    old(ids)@,
                    final(self).children@,
                    r,
                    final(ids)@,
                ),
                Some(SupervisorMsg::DeleteChild { id }) => delete_step(
                    old(self).children@,
                    id,
                    final(self).children@,
                    r,
                ),
                Some(SupervisorMsg::Shutdown) | None => {
                    &&& r.reply is Nothing
                    &&& final(self).children@ == stopped_from(old(self).children@, 0)
                    &&& r.actions@ == stops(
                        old(self).children@,
                        0,
                        old(self).children@.len() as int,
                    )
                },
            },
    {
        match msg {
            Some(SupervisorMsg::ChildExited { child_id, pid, reason }) => self.child_exited(
                &child_id,
                pid,
                &reason,
                now,
                ids,
            ),
            Some(SupervisorMsg::AddChild { entry }) => {
                let r = self.add_child(entry, ids);
                proof {
                    draws_add_up(old(ids)@, 0, 0);
                    assert(self.children@ =~= added_all(
                        old(self).children@,
                        seq![entry],
                        old(ids)@,
                    ));
                    assert(r.actions@ =~= starts(
                        old(self).children@.len() as int,
                        (old(self).children@.len() + 1) as int,
                        old(ids)@,
                    ));
                }
                r
            },
            Some(SupervisorMsg::AddChildren { entries }) => self.add_children(entries, ids),
            Some(SupervisorMsg::TerminateChild { id }) => self.terminate_child(id),
            Some(SupervisorMsg::RestartChild { id }) => self.restart_child(id, ids),
            Some(SupervisorMsg::DeleteChild { id }) => self.delete_child(id),
            Some(SupervisorMsg::CountChildren) => {
                let counts = self.count_children();
                Step { actions: Vec::new(), reply: Reply::Counts(counts), ended: false }
            },
            Some(SupervisorMsg::WhichChildren) => {
                let infos = self.which_children();
                Step { actions: Vec::new(), reply: Reply::Infos(infos), ended: false }
            },
            Some(SupervisorMsg::Shutdown) => self.shut_down(),
            None => self.shut_down(),
        }
    }
}

/// What a request to stop a child leads to.
pub open spec fn terminate_step<F>(
    before: Seq<ChildState<F>>,
    id: String,
    after: Seq<ChildState<F>>,
    r: Step,
) -> bool {
    if has_id(before, id@) {
        exists|i: int| #[trigger]
            first_with_id(before, id@, i) && {
                &&& after == before.update(i, terminated(before[i]))
                &&& r.actions@ == stops(before, i, i + 1)
                &&& r.reply == Reply::Done(Ok(()))
            }
    } else {
        &&& after == before
        &&& r.actions@ == Seq::<Action>::empty()
        &&& r.reply == Reply::Done(Err(SupervisorError::NotFound(id)))
    }
}

/// What a request to start a child again leads to.
pub open spec fn restart_step<F>(
    before: Seq<ChildState<F>>,
    id: String,
    next: u64,
    after: Seq<ChildState<F>>,
    r: Step,
    next_after: u64,
) -> bool {
    if has_id(before, id@) {
        exists|i: int| #[trigger]
            first_with_id(before, id@, i) && {
                if before[i].pid is Some {
                    &&& after == before
                    &&& r.actions@ == Seq::<Action>::empty()
                    &&& r.reply == Reply::Done(Err(SupervisorError::StillRunning(id)))
                    &&& next_after == next
                } else {
                    &&& after == before.update(i, revived(before[i], child_pid(next)))
                    &&& r.actions@ == starts(i, i + 1, next)
                    &&& r.reply == Reply::Done(Ok(()))
                    &&& next_after == drawn_number(next, 1)
                }
            }
    } else {
        &&& after == before
        &&& r.actions@ == Seq::<Action>::empty()
        &&& r.reply == Reply::Done(Err(SupervisorError::NotFound(id)))
        &&& next_after == next
    }
}

/// What a request to forget a child leads to.
pub open spec fn delete_step<F>(
    before: Seq<ChildState<F>>,
    id: String,
    after: Seq<ChildState<F>>,
    r: Step,
) -> bool {
    &&& r.actions@ == Seq::<Action>::empty()
    &&& if has_id(before, id@) {
        exists|i: int| #[trigger]
            first_with_id(before, id@, i) && {
                if before[i].pid is Some {
                    &&& after == before
                    &&& r.reply == Reply::Done(Err(SupervisorError::StillRunning(id)))
                } else {
                    &&& after == before.remove(i)
                    &&& r.reply == Reply::Done(Ok(()))
                }
            }
    } else {
        &&& after == before
        &&& r.reply == Reply::Done(Err(SupervisorError::NotFound(id)))
    }
}

/// Whether the list tells of each child, in order.
pub open spec fn infos_of<F>(children: Seq<ChildState<F>>, infos: Seq<ChildInfo>) -> bool {
    &&& infos.len() == children.len()
    &&& forall|i: int|
        0 <= i < infos.len() ==> {
            &&& (#[trigger] infos[i]).id@ == children[i].spec.id@
            &&& infos[i].pid == children[i].pid
            &&& infos[i].restart == children[i].spec.restart
        }
}

/// A child that was stopped by request.
pub open spec fn terminated<F>(c: ChildState<F>) -> ChildState<F> {
    ChildState { spec: c.spec, factory: c.factory, pid: None, manually_stopped: true }
}

/// A child that was started by request.
pub open spec fn revived<F>(c: ChildState<F>, pid: ProcessId) -> ChildState<F> {
    ChildState { spec: c.spec, factory: c.factory, pid: Some(pid), manually_stopped: false }
}

/// The children with new ones behind them, which run as processes numbered from `next` on.
pub open spec fn added_all<F>(
    children: Seq<ChildState<F>>,
    entries: Seq<ChildEntry<F>>,
    next: u64,
) -> Seq<ChildState<F>> {
    children + Seq::new(
        entries.len(),
        |k: int| with_pid(new_child(entries[k]), Some(child_pid(drawn_number(next, k)))),
    )
}

/// Whether a message ends the supervisor: a request to shut down, the loss of all senders, and
/// the end of a child that would be restarted if the limit were not passed.
pub open spec fn ends<F>(s: SupervisorState<F>, msg: Option<SupervisorMsg<F>>, now: Instant) -> bool {
    match msg {
        None => true,
        Some(SupervisorMsg::Shutdown) => true,
        Some(SupervisorMsg::ChildExited { child_id, pid, reason }) => exists|i: int| #[trigger]
            first_exited(s.children@, child_id@, pid, i) && !s.children@[i].manually_stopped
                && s.children@[i].spec.restart.restarts(reason) && !s.within_limit(now),
        _ => false,
    }
}

/// A child that was just described: it does not run.
pub open spec fn new_child<F>(entry: ChildEntry<F>) -> ChildState<F> {
    ChildState { spec: entry.spec, factory: entry.factory, pid: None, manually_stopped: false }
}

/// The first index of the children that a strategy restarts when the child at `index` ended,
/// and the index after the last.
pub open spec fn restart_range(strategy: RestartStrategy, index: int, len: int) -> (int, int) {
    match strategy {
        RestartStrategy::OneForOne => (index, index + 1),
        RestartStrategy::OneForAll => (0, len),
        RestartStrategy::RestForOne => (index, len),
    }
}

/// What the end of a child leads to: the state `after`, the step `r` and the next number.
pub open spec fn exit_step<F>(
    before: SupervisorState<F>,
    id: Seq<char>,
    pid: ProcessId,
    reason: ExitReason,
    now: Instant,
    next: u64,
    after: SupervisorState<F>,
    r: Step,
    next_after: u64,
) -> bool {
    if forall|j: int| 0 <= j < before.children@.len()
        ==> !is_exited(#[trigger] before.children@[j], id, pid) {
        &&& after.children@ == before.children@
        &&& after.restart_times@ == before.restart_times@
        &&& r.actions@ == Seq::<Action>::empty()
        &&& !r.ended
        &&& next_after == next
    } else {
        exists|i: int| #[trigger]
            first_exited(before.children@, id, pid, i) && {
                let len = before.children@.len() as int;
                let cleared = before.children@.update(i, with_pid(before.children@[i], None));
                let c = before.children@[i];
                if c.manually_stopped || !c.spec.restart.restarts(reason) {
                    &&& after.children@ == cleared
                    &&& after.restart_times@ == before.restart_times@
                    &&& r.actions@ == Seq::<Action>::empty()
                    &&& !r.ended
                    &&& next_after == next
                } else if !before.within_limit(now) {
                    &&& after.children@ == stopped_from(cleared, 0)
                    &&& after.restart_times@ == before.recorded(now)
                    &&& r.actions@ == stops(cleared, 0, len)
                    &&& r.ended
                    &&& next_after == next
                } else {
                    let (lo, hi) = restart_range(before.strategy, i, len);
                    &&& after.restart_times@ == before.recorded(now)
                    &&& after.children@ == restarted(cleared, lo, hi, next)
                    &&& r.actions@ == stops(cleared, lo, hi) + starts(lo, hi, next)
                    &&& !r.ended
                    &&& next_after == drawn_number(next, hi - lo)
                }
            }
    }
}

/// The children of which all with indexes from `lo` up to `hi` run, as processes numbered from
/// `next` on.
pub open spec fn restarted<F>(children: Seq<ChildState<F>>, lo: int, hi: int, next: u64) -> Seq<
    ChildState<F>,
> {
    Seq::new(
        children.len(),
        |j: int|
            if lo <= j < hi {
                with_pid(children[j], Some(child_pid(drawn_number(next, j - lo))))
            } else {
                children[j]
            },
    )
}

/// One-for-one restarts the child that ended, under the next number, and no other.
pub proof fn one_for_one_spares_the_others<F>(
    children: Seq<ChildState<F>>,
    i: int,
    next: u64,
    j: int,
)
    requires
        0 <= i < children.len(),
        0 <= j < children.len(),
    ensures
        ({
            let (lo, hi) = restart_range(RestartStrategy::OneForOne, i, children.len() as int);
            restarted(children, lo, hi, next)[j] == (if j == i {
                with_pid(children[i], Some(child_pid(next)))
            } else {
                children[j]
            })
        }),
{
    draws_add_up(next, 0, 0);
}

/// One-for-all leaves every child running, under a new number.
pub proof fn one_for_all_restarts_everyone<F>(
    children: Seq<ChildState<F>>,
    i: int,
    next: u64,
    j: int,
)
    requires
        0 <= i < children.len(),
        0 <= j < children.len(),
    ensures
        ({
            let (lo, hi) = restart_range(RestartStrategy::OneForAll, i, children.len() as int);
            restarted(children, lo, hi, next)[j] == with_pid(
                children[j],
                Some(child_pid(drawn_number(next, j))),
            )
        }),
{
}

/// Rest-for-one leaves the children before the one that ended alone, and every other running
/// under a new number.
pub proof fn rest_for_one_spares_the_earlier<F>(
    children: Seq<ChildState<F>>,
    i: int,
    next: u64,
    j: int,
)
    requires
        0 <= i < children.len(),
        0 <= j < children.len(),
    ensures
        ({
            let (lo, hi) = restart_range(RestartStrategy::RestForOne, i, children.len() as int);
            restarted(children, lo, hi, next)[j] == (if j < i {
                children[j]
            } else {
                with_pid(children[j], Some(child_pid(drawn_number(next, j - i))))
            })
        }),
{
}

/// Children are stopped in the reverse of their order: each stop in the list is of a running
/// child in the range, and of one that comes before the child of the stop ahead of it.
pub proof fn stops_go_backwards<F>(children: Seq<ChildState<F>>, lo: int, hi: int, a: int, b: int)
    requires
        0 <= lo <= hi <= children.len(),
        children.len() <= usize::MAX,
        0 <= a < b < stops(children, lo, hi).len(),
    ensures
        stops(children, lo, hi)[a] is Stop,
        stops(children, lo, hi)[b] is Stop,
        lo <= stops(children, lo, hi)[b]->Stop_index < stops(children, lo, hi)[a]->Stop_index < hi,
    decreases hi - lo,
{
    if hi > lo {
        let rest = stops(children, lo, hi - 1);
        match children[hi - 1].pid {
            Some(_) => {
                stop_is_in_range(children, lo, hi - 1, b - 1);
                if a > 0 {
                    stops_go_backwards(children, lo, hi - 1, a - 1, b - 1);
                }
            },
            None => {
                stops_go_backwards(children, lo, hi - 1, a, b);
            },
        }
    }
}

proof fn stop_is_in_range<F>(children: Seq<ChildState<F>>, lo: int, hi: int, a: int)
    requires
        0 <= lo <= hi <= children.len(),
        children.len() <= usize::MAX,
        0 <= a < stops(children, lo, hi).len(),
    ensures
        stops(children, lo, hi)[a] is Stop,
        lo <= stops(children, lo, hi)[a]->Stop_index < hi,
    decreases hi - lo,
{
    if hi > lo {
        match children[hi - 1].pid {
            Some(_) => {
                if a > 0 {
                    stop_is_in_range(children, lo, hi - 1, a - 1);
                }
            },
            None => {
                stop_is_in_range(children, lo, hi - 1, a);
            },
        }
    }
}

/// Every running child in the range is stopped, as the process that it runs as.
pub proof fn stops_reach_every_running_child<F>(
    children: Seq<ChildState<F>>,
    lo: int,
    hi: int,
    i: int,
)
    requires
        0 <= lo <= i < hi <= children.len(),
        children[i].pid is Some,
    ensures
        stops(children, lo, hi).contains(
            Action::Stop {
                index: i as usize,
                pid: children[i].pid->0,
                shutdown: children[i].spec.shutdown,
            },
        ),
    decreases hi - lo,
{
    let a = Action::Stop {
        index: i as usize,
        pid: children[i].pid->0,
        shutdown: children[i].spec.shutdown,
    };
    let all = stops(children, lo, hi);
    if i == hi - 1 {
        assert(all[0] == a);
    } else {
        stops_reach_every_running_child(children, lo, hi - 1, i);
        let rest = stops(children, lo, hi - 1);
        let k = choose|k: int| 0 <= k < rest.len() && rest[k] == a;
        match children[hi - 1].pid {
            Some(_) => {
                assert(all[k + 1] == a);
            },
            None => {
                assert(all[k] == a);
            },
        }
    }
}

proof fn all_running_are_stopped<F>(children: Seq<ChildState<F>>)
    ensures
        forall|j: int|
            #![trigger children[j]]
            0 <= j < children.len() && children[j].pid is Some ==> stops(
                children,
                0,
                children.len() as int,
            ).contains(
                Action::Stop {
                    index: j as usize,
                    pid: children[j].pid->0,
                    shutdown: children[j].spec.shutdown,
                },
            ),
{
    assert forall|j: int|
        #![trigger children[j]]
        0 <= j < children.len() && children[j].pid is Some implies stops(
        children,
        0,
        children.len() as int,
    ).contains(
        Action::Stop {
            index: j as usize,
            pid: children[j].pid->0,
            shutdown: children[j].spec.shutdown,
        },
    ) by {
        stops_reach_every_running_child(children, 0, children.len() as int, j);
    }
}

/// Validity of the children against the counter: each running child has a number drawn before
/// `next`, and no two have the same.
pub open spec fn pids_drawn_below<F>(children: Seq<ChildState<F>>, next: u64) -> bool {
    &&& forall|i: int|
        0 <= i < children.len() && (#[trigger] children[i]).pid is Some ==> {
            &&& children[i].pid->0 == child_pid(children[i].pid->0.local())
            &&& children[i].pid->0.local() < next
        }
    &&& forall|i: int, j: int|
        0 <= i < children.len() && 0 <= j < children.len() && i != j && (
        #[trigger] children[i]).pid is Some && (#[trigger] children[j]).pid is Some
            ==> children[i].pid->0 != children[j].pid->0
}

/// The processes of the children stay distinct through the end of a child, as long as the
/// counter does not wrap around.
pub proof fn exit_keeps_pids_distinct<F>(
    before: SupervisorState<F>,
    id: Seq<char>,
    pid: ProcessId,
    reason: ExitReason,
    now: Instant,
    next: u64,
    after: SupervisorState<F>,
    r: Step,
    next_after: u64,
)
    requires
        exit_step(before, id, pid, reason, now, next, after, r, next_after),
        pids_drawn_below(before.children@, next),
        next + before.children@.len() <= u64::MAX,
    ensures
        pids_drawn_below(after.children@, next_after),
{
    broadcast use crate::process::types::pid_of_parts;

    assert forall|i: int, j: int| 0 <= i < j < before.children@.len() implies child_pid(
        drawn_number(next, i),
    ) != child_pid(drawn_number(next, j)) by {
        draws_are_unique(next, i, j);
        assert(child_pid(drawn_number(next, i)).local() != child_pid(
            drawn_number(next, j),
        ).local());
    }
    if exists|j: int|
        0 <= j < before.children@.len() && is_exited(#[trigger] before.children@[j], id, pid) {
        let i = choose|i: int| #[trigger] first_exited(before.children@, id, pid, i);
        first_exited_is_unique(before.children@, id, pid);
        let len = before.children@.len() as int;
        let (lo, hi) = restart_range(before.strategy, i, len);
        assert forall|k: int| 0 <= k <= len implies #[trigger] drawn_number(next, k) == next + k by {
            draws_count_up(next, k);
        }
        assert forall|k: int|
            0 <= k < after.children@.len() && (#[trigger] after.children@[k]).pid is Some implies {
            &&& after.children@[k].pid->0 == child_pid(after.children@[k].pid->0.local())
            &&& after.children@[k].pid->0.local() < next_after
        } by {
            if lo <= k < hi {
                assert(drawn_number(next, k - lo) == next + (k - lo));
                assert(drawn_number(next, hi - lo) == next + (hi - lo));
            }
            assert(drawn_number(next, hi - lo) == next + (hi - lo));
            assert(before.children@[k].pid is Some ==> before.children@[k].pid->0.local() < next);
        }
        assert forall|a: int, b: int|
            0 <= a < after.children@.len() && 0 <= b < after.children@.len() && a != b && (
            #[trigger] after.children@[a]).pid is Some && (
            #[trigger] after.children@[b]).pid is Some implies after.children@[a].pid->0
            != after.children@[b].pid->0 by {
            if lo <= a < hi && lo <= b < hi && a < b {
                assert(child_pid(drawn_number(next, a - lo)) != child_pid(
                    drawn_number(next, b - lo),
                ));
            }
            if lo <= a < hi && lo <= b < hi && b < a {
                assert(child_pid(drawn_number(next, b - lo)) != child_pid(
                    drawn_number(next, a - lo),
                ));
            }
            if lo <= a < hi {
                assert(drawn_number(next, a - lo) == next + (a - lo));
            }
            if lo <= b < hi {
                assert(drawn_number(next, b - lo) == next + (b - lo));
            }
            assert(before.children@[a].pid is Some ==> before.children@[a].pid->0.local() < next);
            assert(before.children@[b].pid is Some ==> before.children@[b].pid->0.local() < next);
        }
    }
}

/// At most one index is the first at which the child runs as the process.
pub proof fn first_exited_is_unique<F>(children: Seq<ChildState<F>>, id: Seq<char>, pid: ProcessId)
    ensures
        forall|i: int, j: int|
            #![trigger first_exited(children, id, pid, i), first_exited(children, id, pid, j)]
            first_exited(children, id, pid, i) && first_exited(children, id, pid, j) ==> i == j,
{
    assert forall|i: int, j: int|
        #![trigger first_exited(children, id, pid, i), first_exited(children, id, pid, j)]
        first_exited(children, id, pid, i) && first_exited(children, id, pid, j) implies i == j by {
        if i < j {
            assert(!is_exited(children[i], id, pid));
        }
        if j < i {
            assert(!is_exited(children[j], id, pid));
        }
    }
}

/// The end of a process is handled once: after it was, no child runs as that process, so the
/// same message again is ignored.
pub proof fn exit_is_handled_once<F>(
    before: SupervisorState<F>,
    id: Seq<char>,
    pid: ProcessId,
    reason: ExitReason,
    now: Instant,
    next: u64,
    after: SupervisorState<F>,
    r: Step,
    next_after: u64,
    j: int,
)
    requires
        exit_step(before, id, pid, reason, now, next, after, r, next_after),
        pids_drawn_below(before.children@, next),
        next + before.children@.len() <= u64::MAX,
        0 <= j < after.children@.len(),
    ensures
        !is_exited(after.children@[j], id, pid),
{
    broadcast use crate::process::types::pid_of_parts;

    if exists|k: int|
        0 <= k < before.children@.len() && is_exited(#[trigger] before.children@[k], id, pid) {
        let i = choose|i: int| #[trigger] first_exited(before.children@, id, pid, i);
        first_exited_is_unique(before.children@, id, pid);
        assert(before.children@[i].pid->0.local() < next);
        let (lo, hi) = restart_range(before.strategy, i, before.children@.len() as int);
        if lo <= j < hi {
            draws_count_up(next, j - lo);
        }
        if j != i {
            assert(before.children@[j].pid is Some ==> before.children@[j].pid->0
                != before.children@[i].pid->0);
        }
    } else {
        assert(before.children@[j] == after.children@[j]);
    }
}

/// A child that was stopped by request is not restarted on its own account: the end of a
/// process that still ran it starts nothing.
pub proof fn terminated_child_stays_down<F>(
    before: SupervisorState<F>,
    id: Seq<char>,
    pid: ProcessId,
    reason: ExitReason,
    now: Instant,
    next: u64,
    after: SupervisorState<F>,
    r: Step,
    next_after: u64,
)
    requires
        exit_step(before, id, pid, reason, now, next, after, r, next_after),
        forall|i: int|
            0 <= i < before.children@.len() && is_exited(#[trigger] before.children@[i], id, pid)
                ==> before.children@[i].manually_stopped,
    ensures
        r.actions@ == Seq::<Action>::empty(),
        !r.ended,
        after.restart_times@ == before.restart_times@,
{
    if exists|k: int|
        0 <= k < before.children@.len() && is_exited(#[trigger] before.children@[k], id, pid) {
        let i = choose|i: int| #[trigger] first_exited(before.children@, id, pid, i);
        first_exited_is_unique(before.children@, id, pid);
        assert(is_exited(before.children@[i], id, pid));
    }
}

} // verus!
