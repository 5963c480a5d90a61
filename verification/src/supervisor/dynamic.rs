//! The supervisor of children that come and go.
use crate::assoc::{distinct_keys, entry_in_map, entry_map_len, Assoc, AssocKey};
use crate::counter::{drawn_number, Counter};
use crate::process::types::pid_text;
use crate::process::{ExitReason, ProcessId};
use crate::supervisor::common::{prune, pruned};
use crate::supervisor::engine::ChildEntry;
use crate::supervisor::spec::{ChildSpec, RestartType, SupervisorError};
use crate::time::Instant;
use std::collections::VecDeque;
use vstd::prelude::*;

verus! {

/// The description of a dynamic supervisor.
pub struct DynamicSupervisorSpec {
    pub max_restarts: u32,
    pub max_seconds: u32,
    /// How many children may run at a time, if that is limited.
    pub max_children: Option<usize>,
}

impl DynamicSupervisorSpec {
    /// A supervisor that allows three restarts in five seconds, and any number of children.
    pub fn new() -> (r: Self)
        ensures
            r.max_restarts == 3,
            r.max_seconds == 5,
            r.max_children == None::<usize>,
    {
        Self { max_restarts: 3, max_seconds: 5, max_children: None }
    }

    /// Allows `n` restarts within the window.
    pub fn max_restarts(self, n: u32) -> (r: Self)
        ensures
            r.max_restarts == n,
            r.max_seconds == self.max_seconds,
            r.max_children == self.max_children,
    {
        Self { max_restarts: n, max_seconds: self.max_seconds, max_children: self.max_children }
    }

    /// Makes the window `n` seconds long.
    pub fn max_seconds(self, n: u32) -> (r: Self)
        ensures
            r.max_restarts == self.max_restarts,
            r.max_seconds == n,
            r.max_children == self.max_children,
    {
        Self { max_restarts: self.max_restarts, max_seconds: n, max_children: self.max_children }
    }

    /// Allows `n` running children.
    pub fn max_children(self, n: usize) -> (r: Self)
        ensures
            r.max_restarts == self.max_restarts,
            r.max_seconds == self.max_seconds,
            r.max_children == Some(n),
    {
        Self { max_restarts: self.max_restarts, max_seconds: self.max_seconds, max_children: Some(n) }
    }
}

/// What is told of a child. One that does not run has no process.
#[derive(Debug)]
pub struct DynChildInfo {
    pub id: String,
    pub pid: Option<ProcessId>,
    pub restart: RestartType,
}

/// How many children run, and how many are known.
#[derive(Debug, Clone, Copy, PartialEq, Eq, Structural)]
pub struct DynChildCounts {
    pub active: usize,
    pub specs: usize,
}

/// A child as the supervisor knows it.
pub struct DynChildState<F> {
    pub id: String,
    pub spec: ChildSpec,
    pub factory: F,
    pub pid: ProcessId,
    pub active: bool,
}

/// What the caller has to do.
#[derive(Debug, Clone, Copy, PartialEq, Eq, Structural)]
pub enum DynAction {
    Nothing,
    /// Start the child that is known as this process.
    Start(ProcessId),
    /// Ask this process to end.
    Stop(ProcessId),
    /// Ask all processes to end.
    StopAll,
}

/// The number of the first process that a dynamic supervisor starts.
pub const FIRST_DYN_CHILD_ID: u64 = 2_000_000;

/// The identity of the child process with a number.
pub open spec fn dyn_child_pid(number: u64) -> ProcessId {
    ProcessId::of(1, 0, number)
}

/// A child that runs as the process.
pub open spec fn running<F>(id: String, spec: ChildSpec, factory: F, pid: ProcessId) -> DynChildState<
    F,
> {
    DynChildState { id, spec, factory, pid, active: true }
}

/// A child that does not run any more.
pub open spec fn inactive<F>(c: DynChildState<F>) -> DynChildState<F> {
    DynChildState { id: c.id, spec: c.spec, factory: c.factory, pid: c.pid, active: false }
}

/// The children that run.
pub open spec fn active_set<F>(children: Map<ProcessId, DynChildState<F>>) -> Set<ProcessId> {
    children.dom().filter(|p: ProcessId| children[p].active)
}

/// Whether something is what is told of a child.
pub open spec fn tells_of<F>(info: DynChildInfo, c: DynChildState<F>) -> bool {
    &&& info.id@ == c.id@
    &&& info.pid == (if c.active {
        Some(c.pid)
    } else {
        None
    })
    &&& info.restart == c.spec.restart
}

/// Whether a list tells of the children with these processes, in the processes' order, and the
/// processes are those of all children, each once.
pub open spec fn dyn_infos_of<F>(
    children: Map<ProcessId, DynChildState<F>>,
    pids: Seq<ProcessId>,
    infos: Seq<DynChildInfo>,
) -> bool {
    &&& pids.no_duplicates()
    &&& pids.to_set() == children.dom()
    &&& infos.len() == pids.len()
    &&& forall|i: int|
        0 <= i < pids.len() ==> tells_of(#[trigger] infos[i], children[#[trigger] pids[i]])
}

/// Whether a list tells of all children, each once.
pub open spec fn tells_of_all<F>(
    children: Map<ProcessId, DynChildState<F>>,
    infos: Seq<DynChildInfo>,
) -> bool {
    exists|pids: Seq<ProcessId>| #[trigger] dyn_infos_of(children, pids, infos)
}

/// A dynamic supervisor: its rules, its children by process, the processes that were asked to
/// end and have not yet, and its recent restarts.
pub struct DynamicSupervisorState<F> {
    max_restarts: u32,
    max_seconds: u32,
    max_children: Option<usize>,
    children: Assoc<ProcessId, DynChildState<F>>,
    terminated: Assoc<ProcessId, ()>,
    restart_times: VecDeque<Instant>,
}

impl<F> DynamicSupervisorState<F> {
    pub closed spec fn restart_limit(self) -> u32 {
        self.max_restarts
    }

    pub closed spec fn window(self) -> u32 {
        self.max_seconds
    }

    pub closed spec fn children_limit(self) -> Option<usize> {
        self.max_children
    }

    /// The children, by process.
    pub closed spec fn view(self) -> Map<ProcessId, DynChildState<F>> {
        self.children@
    }

    /// The processes that were asked to end and have not yet.
    pub closed spec fn ending(self) -> Set<ProcessId> {
        self.terminated@.dom()
    }

    pub closed spec fn restarts(self) -> Seq<Instant> {
        self.restart_times@
    }

    /// Validity: each child is listed once, under its own process.
    pub closed spec fn wf(self) -> bool {
        &&& self.children.wf()
        &&& self.terminated.wf()
        &&& forall|p: ProcessId| #[trigger]
            self.children@.dom().contains(p) ==> self.children@[p].pid == p
    }

    /// All that a change of the children leaves alone.
    pub open spec fn same_rules(self, other: DynamicSupervisorState<F>) -> bool {
        &&& self.restart_limit() == other.restart_limit()
        &&& self.window() == other.window()
        &&& self.children_limit() == other.children_limit()
    }

    /// Whether another child may run.
    pub open spec fn has_room(self) -> bool {
        match self.children_limit() {
            Some(n) => active_set(self@).len() < n,
            None => true,
        }
    }

    /// The restarts that are still in the window at `now`.
    pub open spec fn recent(self, now: Instant) -> Seq<Instant> {
        pruned(self.restarts(), now, self.window())
    }

    /// Whether a restart at `now` is within the limit.
    pub open spec fn within_limit(self, now: Instant) -> bool {
        self.recent(now).len() < self.restart_limit()
    }

    /// The supervisor without children.
    pub fn new(spec: DynamicSupervisorSpec) -> (r: Self)
        ensures
            r.wf(),
            r.restart_limit() == spec.max_restarts,
            r.window() == spec.max_seconds,
            r.children_limit() == spec.max_children,
            r@ == Map::<ProcessId, DynChildState<F>>::empty(),
            r.ending() == Set::<ProcessId>::empty(),
            r.restarts() == Seq::<Instant>::empty(),
    {
        let r = DynamicSupervisorState {
            max_restarts: spec.max_restarts,
            max_seconds: spec.max_seconds,
            max_children: spec.max_children,
            children: Assoc::new(),
            terminated: Assoc::new(),
            restart_times: VecDeque::new(),
        };
        assert(r.ending() =~= Set::<ProcessId>::empty());
        r
    }

    /// The number of children that run.
    fn active_count(&self) -> (r: usize)
        requires
            self.wf(),
        ensures
            r == active_set(self@).len(),
    {
        let n: usize = self.children.len();
        let mut count: usize = 0;
        let mut i: usize = 0;
        let ghost items = self.children.items();
        let ghost mut seen: Set<ProcessId> = Set::empty();
        while i < n
            invariant
                self.wf(),
                items == self.children.items(),
                n == items.len(),
                i <= n,
                count <= i,
                seen.finite(),
                count == seen.len(),
                forall|p: ProcessId| #[trigger]
                    seen.contains(p) <==> exists|j: int|
                        0 <= j < i && (#[trigger] items[j]).0 == p && items[j].1.active,
            decreases n - i,
        {
            let (pid, c) = self.children.entry(i);
            if c.active {
                proof {
                    assert(!seen.contains(*pid)) by {
                        if seen.contains(*pid) {
                            let j = choose|j: int|
                                0 <= j < i && (#[trigger] items[j]).0 == *pid && items[j].1.active;
                            assert(items[j].0.key() != items[i as int].0.key());
                        }
                    }
                    let prev = seen;
                    seen = seen.insert(*pid);
                    assert forall|p: ProcessId| #[trigger]
                        seen.contains(p) <==> exists|j: int|
                            0 <= j < i + 1 && (#[trigger] items[j]).0 == p && items[j].1.active by {
                        if prev.contains(p) {
                            let j = choose|j: int|
                                0 <= j < i && (#[trigger] items[j]).0 == p && items[j].1.active;
                            assert(items[j].0 == p);
                        }
                        assert(items[i as int].0 == *pid);
                    }
                }
                count = count + 1;
            }
            i = i + 1;
        }
        proof {
            assert forall|p: ProcessId| seen.contains(p) <==> active_set(self@).contains(p) by {
                if seen.contains(p) {
                    let j = choose|j: int|
                        0 <= j < i && (#[trigger] items[j]).0 == p && items[j].1.active;
                    entry_in_map(items, j);
                }
                if active_set(self@).contains(p) {
                    let j = choose|j: int|
                        0 <= j < items.len() && (#[trigger] items[j]).0.key() == p;
                    entry_in_map(items, j);
                    assert(items[j].0 == p && items[j].1.active);
                }
            }
            assert(seen =~= active_set(self@));
        }
        count
    }

    /// Adds a child and starts it, if there is room for another.
    pub fn start_child(&mut self, entry: ChildEntry<F>, ids: &mut Counter) -> (r: (
        Result<ProcessId, SupervisorError>,
        DynAction,
    ))
        requires
            old(self).wf(),
        ensures
            final(self).wf(),
            final(self).same_rules(*old(self)),
            dyn_start_step(*old(self), entry, old(ids)@, *final(self), r.0, r.1, final(ids)@),
    {
        let room = match self.max_children {
            Some(n) => self.active_count() < n,
            None => true,
        };
        if !room {
            return (Err(SupervisorError::MaxChildren), DynAction::Nothing);
        }
        let pid = ProcessId::new(1, 0, ids.draw());
        let state = DynChildState {
            id: entry.spec.id.clone(),
            spec: entry.spec,
            factory: entry.factory,
            pid,
            active: true,
        };
        self.children.insert(pid, state);
        (Ok(pid), DynAction::Start(pid))
    }

    /// Asks a child to end, so that it is not restarted.
    pub fn terminate_child(&mut self, pid: ProcessId) -> (r: (
        Result<(), SupervisorError>,
        DynAction,
    ))
        requires
            old(self).wf(),
        ensures
            final(self).wf(),
            final(self).same_rules(*old(self)),
            dyn_terminate_step(*old(self), pid, *final(self), r.0, r.1),
    {
        match self.children.remove(&pid) {
            Some(child) => {
                self.terminated.insert(pid, ());
                let stopped = DynChildState {
                    id: child.id,
                    spec: child.spec,
                    factory: child.factory,
                    pid: child.pid,
                    active: false,
                };
                self.children.insert(pid, stopped);
                assert(self@ =~= old(self)@.insert(pid, inactive(old(self)@[pid])));
                assert(self.ending() =~= old(self).ending().insert(pid));
                (Ok(()), DynAction::Stop(pid))
            },
            None => (Err(SupervisorError::NotFound(pid.to_string())), DynAction::Nothing),
        }
    }

    /// Forgets a child that does not run.
    pub fn remove_child(&mut self, pid: ProcessId) -> (r: Result<(), SupervisorError>)
        requires
            old(self).wf(),
        ensures
            final(self).wf(),
            final(self).same_rules(*old(self)),
            dyn_remove_step(*old(self), pid, *final(self), r),
    {
        match self.children.get(&pid) {
            Some(child) => {
                if child.active {
                    return Err(SupervisorError::StillRunning(child.id.clone()));
                }
            },
            None => {
                return Err(SupervisorError::NotFound(pid.to_string()));
            },
        }
        self.children.remove(&pid);
        Ok(())
    }

    /// What is told of each child.
    pub fn which_children(&self) -> (r: Vec<DynChildInfo>)
        requires
            self.wf(),
        ensures
            tells_of_all(self@, r@),
    {
        let n: usize = self.children.len();
        let ghost items = self.children.items();
        let mut infos: Vec<DynChildInfo> = Vec::new();
        let mut i: usize = 0;
        while i < n
            invariant
                self.wf(),
                items == self.children.items(),
                n == items.len(),
                i <= n,
                infos@.len() == i,
                forall|j: int| 0 <= j < i ==> tells_of(#[trigger] infos@[j], items[j].1),
            decreases n - i,
        {
            let (_, c) = self.children.entry(i);
            let pid = if c.active {
                Some(c.pid)
            } else {
                None
            };
            infos.push(DynChildInfo { id: c.id.clone(), pid, restart: c.spec.restart });
            i = i + 1;
        }
        proof {
            let pids = items.map_values(|e: (ProcessId, DynChildState<F>)| e.0);
            assert forall|j: int| 0 <= j < pids.len() implies self@.dom().contains(
                #[trigger] pids[j],
            ) && self@[pids[j]] == items[j].1 by {
                entry_in_map(items, j);
            }
            assert forall|p: ProcessId| #[trigger] pids.to_set().contains(p) <==> self@.dom().contains(
                p,
            ) by {
                if self@.dom().contains(p) {
                    let j = choose|j: int|
                        0 <= j < items.len() && (#[trigger] items[j]).0.key() == p;
                    assert(pids[j] == p);
                }
            }
            assert(pids.to_set() =~= self@.dom());
            assert(dyn_infos_of(self@, pids, infos@));
        }
        infos
    }

    /// How many children run, and how many are known.
    pub fn count_children(&self) -> (r: DynChildCounts)
        requires
            self.wf(),
        ensures
            r.active == active_set(self@).len(),
            r.specs == self@.dom().len(),
    {
        DynChildCounts { active: self.active_count(), specs: self.children.len() }
    }

    /// A child ended. One that was asked to is left as it is, and one that is not known is
    /// ignored. Else it is restarted as a new process if its restart type says so, or marked as
    /// not running. If a restart would pass the limit, the supervisor ends.
    pub fn child_exited(
        &mut self,
        pid: ProcessId,
        reason: &ExitReason,
        now: Instant,
        ids: &mut Counter,
    ) -> (r: (DynAction, bool))
        requires
            old(self).wf(),
        ensures
            final(self).wf(),
            final(self).same_rules(*old(self)),
            dyn_exit_step(*old(self), pid, *reason, now, old(ids)@, *final(self), r, final(ids)@),
            !r.1 && !old(self).ending().contains(pid) && pid != ProcessId::of(1, 0, old(ids)@)
                ==> !(final(self)@.dom().contains(pid) && final(self)@[pid].active),
            r.1 ==> r.0 == DynAction::StopAll,
    {
        match self.terminated.remove(&pid) {
            Some(_) => {
                assert(self.ending() =~= old(self).ending().remove(pid));
                return (DynAction::Nothing, false);
            },
            None => {
                assert(!old(self).ending().contains(pid));
            },
        }
        let restarts = match self.children.get(&pid) {
            Some(child) => child.spec.restart.should_restart(reason),
            None => {
                return (DynAction::Nothing, false);
            },
        };
        if restarts {
            prune(&mut self.restart_times, now, self.max_seconds);
            if self.restart_times.len() >= self.max_restarts as usize {
                return (DynAction::StopAll, true);
            }
            self.restart_times.push_back(now);
        }
        match self.children.remove(&pid) {
            Some(child) => {
                if restarts {
                    let new_pid = ProcessId::new(1, 0, ids.draw());
                    let state = DynChildState {
                        id: child.id,
                        spec: child.spec,
                        factory: child.factory,
                        pid: new_pid,
                        active: true,
                    };
                    self.children.insert(new_pid, state);
                    (DynAction::Start(new_pid), false)
                } else {
                    let state = DynChildState {
                        id: child.id,
                        spec: child.spec,
                        factory: child.factory,
                        pid: child.pid,
                        active: false,
                    };
                    self.children.insert(pid, state);
                    assert(self@ =~= old(self)@.insert(pid, inactive(old(self)@[pid])));
                    (DynAction::Nothing, false)
                }
            },
            None => (DynAction::Nothing, false),
        }
    }

    /// Asks all children to end, and ends.
    pub fn shut_down(&mut self) -> (r: (DynAction, bool))
        requires
            old(self).wf(),
        ensures
            final(self).wf(),
            final(self).same_rules(*old(self)),
            all_inactive(*old(self), *final(self)),
            r == (DynAction::StopAll, true),
    {
        let n: usize = self.children.len();
        let ghost before = self@;
        let ghost items = self.children.items();
        let mut i: usize = 0;
        while i < n
            invariant
                self.wf(),
                self.same_rules(*old(self)),
                self.ending() == old(self).ending(),
                self.restarts() == old(self).restarts(),
                before == old(self)@,
                n == items.len(),
                items == old(self).children.items(),
                distinct_keys(items),
                i <= n,
                self.children.items().len() == n,
                forall|j: int|
                    0 <= j < n - i ==> #[trigger] self.children.items()[j] == items[i + j],
                forall|j: int|
                    0 <= j < i ==> #[trigger] self.children.items()[n - i + j] == (
                        items[j].0,
                        inactive(items[j].1),
                    ),
            decreases n - i,
        {
            let ghost prev = self.children.items();
            let (pid, c) = self.children.remove_at(0);
            let state = DynChildState {
                id: c.id,
                spec: c.spec,
                factory: c.factory,
                pid: c.pid,
                active: false,
            };
            proof {
                assert(prev[0] == items[i + 0]);
            }
            self.children.insert(pid, state);
            proof {
                let now_items = self.children.items();
                assert(now_items =~= prev.remove(0).push((pid, state)));
                assert forall|j: int| 0 <= j < n - (i + 1) implies #[trigger] now_items[j]
                    == items[i + 1 + j] by {
                    assert(now_items[j] == prev[j + 1]);
                }
                assert forall|j: int| 0 <= j < i + 1 implies #[trigger] now_items[n - (i + 1) + j]
                    == (items[j].0, inactive(items[j].1)) by {
                    if j < i {
                        assert(now_items[n - (i + 1) + j] == prev[n - i + j]);
                    }
                }
            }
            i = i + 1;
        }
        proof {
            let after = self.children.items();
            assert forall|p: ProcessId| before.dom().contains(p) implies self@.dom().contains(p)
                && self@[p] == inactive(before[p]) by {
                let j = choose|j: int| 0 <= j < items.len() && (#[trigger] items[j]).0.key() == p;
                entry_in_map(items, j);
                assert(after[n - n + j] == (items[j].0, inactive(items[j].1)));
                entry_in_map(after, j);
            }
            assert forall|p: ProcessId| self@.dom().contains(p) implies before.dom().contains(p) by {
                let j = choose|j: int| 0 <= j < after.len() && (#[trigger] after[j]).0.key() == p;
                assert(after[n - n + j] == (items[j].0, inactive(items[j].1)));
                entry_in_map(items, j);
            }
            assert(self@.dom() =~= before.dom());
            assert(active_set(self@) =~= Set::<ProcessId>::empty());
        }
        (DynAction::StopAll, true)
    }

    /// What a message leads to; without one, all senders are gone, and the supervisor ends.
    pub fn step(&mut self, msg: Option<DynSupervisorMsg<F>>, now: Instant, ids: &mut Counter) -> (r:
        DynStep)
        requires
            old(self).wf(),
        ensures
            final(self).wf(),
            final(self).same_rules(*old(self)),
            is_dyn_step(*old(self), msg, now, old(ids)@, *final(self), r, final(ids)@),
    {
        match msg {
            Some(DynSupervisorMsg::StartChild { entry }) => {
                let (reply, action) = self.start_child(entry, ids);
                DynStep { action, reply: DynReply::Started(reply), ended: false }
            },
            Some(DynSupervisorMsg::TerminateChild { pid }) => {
                let (reply, action) = self.terminate_child(pid);
                DynStep { action, reply: DynReply::Done(reply), ended: false }
            },
            Some(DynSupervisorMsg::RemoveChild { pid }) => {
                let reply = self.remove_child(pid);
                DynStep { action: DynAction::Nothing, reply: DynReply::Done(reply), ended: false }
            },
            Some(DynSupervisorMsg::WhichChildren) => {
                let infos = self.which_children();
                DynStep { action: DynAction::Nothing, reply: DynReply::Infos(infos), ended: false }
            },
            Some(DynSupervisorMsg::CountChildren) => {
                let counts = self.count_children();
                DynStep { action: DynAction::Nothing, reply: DynReply::Counts(counts), ended: false }
            },
            Some(DynSupervisorMsg::ChildExited { pid, reason }) => {
                let (action, ended) = self.child_exited(pid, &reason, now, ids);
                DynStep { action, reply: DynReply::Nothing, ended }
            },
            Some(DynSupervisorMsg::Shutdown) | None => {
                let (action, ended) = self.shut_down();
                DynStep { action, reply: DynReply::Nothing, ended }
            },
        }
    }

    /// The factory of a child that is known.
    pub fn factory(&self, pid: ProcessId) -> (r: Option<&F>)
        requires
            self.wf(),
        ensures
            match r {
                Some(f) => self@.dom().contains(pid) && *f == self@[pid].factory,
                None => !self@.dom().contains(pid),
            },
    {
        match self.children.get(&pid) {
            Some(c) => Some(&c.factory),
            None => None,
        }
    }
}

/// Each child of a supervisor is known under the process that it has, and there is an end of
/// them.
pub proof fn children_are_known_by_process<F>(s: DynamicSupervisorState<F>)
    requires
        s.wf(),
    ensures
        s@.dom().finite(),
        forall|p: ProcessId| #[trigger] s@.dom().contains(p) ==> s@[p].pid == p,
{
    entry_map_len(s.children.items());
}

/// What a request to start a child leads to: it runs as the next process, or there is no room.
pub open spec fn dyn_start_step<F>(
    before: DynamicSupervisorState<F>,
    entry: ChildEntry<F>,
    next: u64,
    after: DynamicSupervisorState<F>,
    reply: Result<ProcessId, SupervisorError>,
    action: DynAction,
    next_after: u64,
) -> bool {
    &&& after.ending() == before.ending()
    &&& after.restarts() == before.restarts()
    &&& if before.has_room() {
        let pid = dyn_child_pid(next);
        &&& reply == Ok::<ProcessId, SupervisorError>(pid)
        &&& action == DynAction::Start(pid)
        &&& after@ == before@.insert(pid, running(entry.spec.id, entry.spec, entry.factory, pid))
        &&& next_after == drawn_number(next, 1)
    } else {
        &&& reply == Err::<ProcessId, SupervisorError>(SupervisorError::MaxChildren)
        &&& action == DynAction::Nothing
        &&& after@ == before@
        &&& next_after == next
    }
}

/// What a request to end a child leads to.
pub open spec fn dyn_terminate_step<F>(
    before: DynamicSupervisorState<F>,
    pid: ProcessId,
    after: DynamicSupervisorState<F>,
    reply: Result<(), SupervisorError>,
    action: DynAction,
) -> bool {
    &&& after.restarts() == before.restarts()
    &&& if before@.dom().contains(pid) {
        &&& reply == Ok::<(), SupervisorError>(())
        &&& action == DynAction::Stop(pid)
        &&& after@ == before@.insert(pid, inactive(before@[pid]))
        &&& after.ending() == before.ending().insert(pid)
    } else {
        &&& reply is Err
        &&& reply->Err_0 is NotFound
        &&& reply->Err_0->NotFound_0@ == pid_text(pid)
        &&& action == DynAction::Nothing
        &&& after@ == before@
        &&& after.ending() == before.ending()
    }
}

/// What a request to forget a child leads to.
pub open spec fn dyn_remove_step<F>(
    before: DynamicSupervisorState<F>,
    pid: ProcessId,
    after: DynamicSupervisorState<F>,
    reply: Result<(), SupervisorError>,
) -> bool {
    &&& after.ending() == before.ending()
    &&& after.restarts() == before.restarts()
    &&& match reply {
        Ok(()) => before@.dom().contains(pid) && !before@[pid].active && after@ == before@.remove(
            pid,
        ),
        Err(SupervisorError::StillRunning(id)) => before@.dom().contains(pid) && before@[pid].active
            && id == before@[pid].id && after@ == before@,
        Err(SupervisorError::NotFound(text)) => !before@.dom().contains(pid) && text@ == pid_text(
            pid,
        ) && after@ == before@,
        Err(_) => false,
    }
}

/// Whether the same children are known as before, and none of them runs.
pub open spec fn all_inactive<F>(
    before: DynamicSupervisorState<F>,
    after: DynamicSupervisorState<F>,
) -> bool {
    &&& after.ending() == before.ending()
    &&& after.restarts() == before.restarts()
    &&& after@.dom() == before@.dom()
    &&& forall|p: ProcessId| #[trigger]
        before@.dom().contains(p) ==> after@[p] == inactive(before@[p])
    &&& active_set(after@) == Set::<ProcessId>::empty()
}

/// A message to a dynamic supervisor.
pub enum DynSupervisorMsg<F> {
    StartChild { entry: ChildEntry<F> },
    TerminateChild { pid: ProcessId },
    RemoveChild { pid: ProcessId },
    WhichChildren,
    CountChildren,
    ChildExited { pid: ProcessId, reason: ExitReason },
    Shutdown,
}

/// The answer to a message.
#[derive(Debug)]
pub enum DynReply {
    Nothing,
    Started(Result<ProcessId, SupervisorError>),
    Done(Result<(), SupervisorError>),
    Infos(Vec<DynChildInfo>),
    Counts(DynChildCounts),
}

/// What a message led to.
pub struct DynStep {
    pub action: DynAction,
    pub reply: DynReply,
    /// Whether the supervisor has ended.
    pub ended: bool,
}

/// What a message leads to; without one, all senders are gone, and the supervisor ends.
pub open spec fn is_dyn_step<F>(
    before: DynamicSupervisorState<F>,
    msg: Option<DynSupervisorMsg<F>>,
    now: Instant,
    next: u64,
    after: DynamicSupervisorState<F>,
    r: DynStep,
    next_after: u64,
) -> bool {
    match msg {
        Some(DynSupervisorMsg::StartChild { entry }) => {
            &&& !r.ended
            &&& r.reply matches DynReply::Started(reply)
            &&& dyn_start_step(before, entry, next, after, reply, r.action, next_after)
        },
        Some(DynSupervisorMsg::TerminateChild { pid }) => {
            &&& !r.ended
            &&& next_after == next
            &&& r.reply matches DynReply::Done(reply)
            &&& dyn_terminate_step(before, pid, after, reply, r.action)
        },
        Some(DynSupervisorMsg::RemoveChild { pid }) => {
            &&& !r.ended
            &&& next_after == next
            &&& r.action == DynAction::Nothing
            &&& r.reply matches DynReply::Done(reply)
            &&& dyn_remove_step(before, pid, after, reply)
        },
        Some(DynSupervisorMsg::WhichChildren) => {
            &&& after == before
            &&& !r.ended
            &&& next_after == next
            &&& r.action == DynAction::Nothing
            &&& r.reply matches DynReply::Infos(infos)
            &&& tells_of_all(before@, infos@)
        },
        Some(DynSupervisorMsg::CountChildren) => {
            &&& after == before
            &&& !r.ended
            &&& next_after == next
            &&& r.action == DynAction::Nothing
            &&& r.reply matches DynReply::Counts(counts)
            &&& counts.active == active_set(before@).len()
            &&& counts.specs == before@.dom().len()
        },
        Some(DynSupervisorMsg::ChildExited { pid, reason }) => {
            &&& r.reply is Nothing
            &&& dyn_exit_step(before, pid, reason, now, next, after, (r.action, r.ended), next_after)
        },
        Some(DynSupervisorMsg::Shutdown) | None => {
            &&& r.ended
            &&& next_after == next
            &&& r.reply is Nothing
            &&& r.action == DynAction::StopAll
            &&& all_inactive(before, after)
        },
    }
}

/// What the end of a child leads to: the state `after`, the action, whether the supervisor
/// ends, and the next number.
pub open spec fn dyn_exit_step<F>(
    before: DynamicSupervisorState<F>,
    pid: ProcessId,
    reason: ExitReason,
    now: Instant,
    next: u64,
    after: DynamicSupervisorState<F>,
    r: (DynAction, bool),
    next_after: u64,
) -> bool {
    if before.ending().contains(pid) {
        &&& r == (DynAction::Nothing, false)
        &&& after@ == before@
        &&& after.ending() == before.ending().remove(pid)
        &&& after.restarts() == before.restarts()
        &&& next_after == next
    } else {
        &&& after.ending() == before.ending()
        &&& if !before@.dom().contains(pid) {
            &&& r == (DynAction::Nothing, false)
            &&& after@ == before@
            &&& after.restarts() == before.restarts()
            &&& next_after == next
        } else if !before@[pid].spec.restart.restarts(reason) {
            &&& r == (DynAction::Nothing, false)
            &&& after@ == before@.insert(pid, inactive(before@[pid]))
            &&& after.restarts() == before.restarts()
            &&& next_after == next
        } else if !before.within_limit(now) {
            &&& r == (DynAction::StopAll, true)
            &&& after@ == before@
            &&& after.restarts() == before.recent(now)
            &&& next_after == next
        } else {
            let c = before@[pid];
            let new_pid = dyn_child_pid(next);
            &&& r == (DynAction::Start(new_pid), false)
            &&& after@ == before@.remove(pid).insert(
                new_pid,
                running(c.id, c.spec, c.factory, new_pid),
            )
            &&& after.restarts() == before.recent(now).push(now)
            &&& next_after == drawn_number(next, 1)
        }
    }
}

/// A child that was asked to end is not restarted, whatever it ends for and whatever its
/// restart type.
pub proof fn terminated_child_is_not_restarted<F>(
    before: DynamicSupervisorState<F>,
    pid: ProcessId,
    reason: ExitReason,
    now: Instant,
    next: u64,
    after: DynamicSupervisorState<F>,
    r: (DynAction, bool),
    next_after: u64,
)
    requires
        before.ending().contains(pid),
        dyn_exit_step(before, pid, reason, now, next, after, r, next_after),
    ensures
        r == (DynAction::Nothing, false),
        after@ == before@,
{
}

/// A restarted child keeps its identifier and description, and comes back as another process.
pub proof fn restart_keeps_the_child<F>(
    before: DynamicSupervisorState<F>,
    pid: ProcessId,
    reason: ExitReason,
    now: Instant,
    next: u64,
    after: DynamicSupervisorState<F>,
    r: (DynAction, bool),
    next_after: u64,
)
    requires
        dyn_exit_step(before, pid, reason, now, next, after, r, next_after),
        r.0 is Start,
        pid != dyn_child_pid(next),
    ensures
        before@.dom().contains(pid),
        !after@.dom().contains(pid),
        r.0 == DynAction::Start(dyn_child_pid(next)),
        after@.dom().contains(dyn_child_pid(next)),
        after@[dyn_child_pid(next)].id == before@[pid].id,
        after@[dyn_child_pid(next)].spec == before@[pid].spec,
        after@[dyn_child_pid(next)].active,
{
}

/// A temporary child is never restarted, but stays known.
pub proof fn temporary_child_stays_known<F>(
    before: DynamicSupervisorState<F>,
    pid: ProcessId,
    reason: ExitReason,
    now: Instant,
    next: u64,
    after: DynamicSupervisorState<F>,
    r: (DynAction, bool),
    next_after: u64,
)
    requires
        dyn_exit_step(before, pid, reason, now, next, after, r, next_after),
        before@.dom().contains(pid),
        before@[pid].spec.restart == RestartType::Temporary,
    ensures
        r == (DynAction::Nothing, false),
        after@.dom().contains(pid),
        after@[pid].active ==> before.ending().contains(pid),
{
}

} // verus!
