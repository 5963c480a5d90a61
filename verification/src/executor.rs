//! The order in which tasks of one thread run: the run queue, the timers and the event loop's
//! decisions.
use crate::task::RawTask;
use crate::time::{elapsed, Duration, Instant};
use std::collections::{HashMap, VecDeque};
use vstd::prelude::*;

verus! {

/// How an executor is set up, with a `P` for the set-up of buffers.
pub struct ExecutorConfig<P> {
    /// The largest number of tasks that are polled before input and output get a turn.
    pub tick_budget: usize,
    /// How often the buffers change.
    pub epoch_interval: Duration,
    /// How the buffers are set up, if there are any.
    pub pool_config: Option<P>,
}

impl<P> Default for ExecutorConfig<P> {
    fn default() -> (r: Self)
        ensures
            r.tick_budget == 128,
            r.epoch_interval@ == 100_000_000,
            r.pool_config is None,
    {
        Self {
            tick_budget: 128,
            epoch_interval: Duration::from_millis(100),
            pool_config: None,
        }
    }
}

/// The timers that are set, the earliest first, and in the order of setting where they are for
/// the same point of time.
pub struct Timers<W> {
    entries: Vec<(Instant, W)>,
}

/// Whether timers are in order of their points.
pub open spec fn in_order<W>(s: Seq<(Instant, W)>) -> bool {
    forall|i: int, j: int| 0 <= i < j < s.len() ==> (#[trigger] s[i]).0@ <= (#[trigger] s[j]).0@
}

/// The number of timers at the front whose points are not after the given one.
pub open spec fn due<W>(s: Seq<(Instant, W)>, now: Instant) -> int
    decreases s.len(),
{
    if s.len() == 0 || s[0].0@ > now@ {
        0
    } else {
        1 + due(s.skip(1), now)
    }
}

/// The timers that ring, without their points.
pub open spec fn ringing<W>(s: Seq<(Instant, W)>) -> Seq<W> {
    s.map_values(|e: (Instant, W)| e.1)
}

proof fn due_bounds<W>(s: Seq<(Instant, W)>, now: Instant)
    ensures
        0 <= due(s, now) <= s.len(),
        forall|i: int| 0 <= i < due(s, now) ==> (#[trigger] s[i]).0@ <= now@,
        due(s, now) < s.len() ==> s[due(s, now)].0@ > now@,
    decreases s.len(),
{
    if s.len() == 0 || s[0].0@ > now@ {
    } else {
        let rest = s.skip(1);
        due_bounds(rest, now);
        assert forall|i: int| 0 <= i < due(s, now) implies (#[trigger] s[i]).0@ <= now@ by {
            if i > 0 {
                assert(rest[i - 1] == s[i]);
            }
        }
        if due(s, now) < s.len() {
            assert(rest[due(rest, now)] == s[due(s, now)]);
        }
    }
}

proof fn due_is_split<W>(s: Seq<(Instant, W)>, now: Instant, k: int)
    requires
        0 <= k <= s.len(),
        forall|i: int| 0 <= i < k ==> (#[trigger] s[i]).0@ <= now@,
        k < s.len() ==> s[k].0@ > now@,
    ensures
        due(s, now) == k,
{
    due_bounds(s, now);
    let d = due(s, now);
    if d < k {
        assert(s[d].0@ <= now@);
    }
    if k < d {
        assert(s[k].0@ <= now@);
    }
}

impl<W> Timers<W> {
    /// The timers in order.
    pub closed spec fn view(&self) -> Seq<(Instant, W)> {
        self.entries@
    }

    /// Validity: the timers are in order.
    pub open spec fn wf(self) -> bool {
        in_order(self@)
    }

    pub fn new() -> (r: Self)
        ensures
            r.wf(),
            r@ == Seq::<(Instant, W)>::empty(),
    {
        Self { entries: Vec::new() }
    }

    /// Sets a timer: it comes after those for the same point and for earlier ones.
    pub fn register_timer(&mut self, deadline: Instant, waker: W)
        requires
            old(self).wf(),
        ensures
            final(self).wf(),
            final(self)@ == old(self)@.insert(due(old(self)@, deadline), (deadline, waker)),
            final(self)@.len() == old(self)@.len() + 1,
            final(self)@.contains((deadline, waker)),
    {
        let k: usize = self.due_count(deadline);
        proof {
            due_bounds(self@, deadline);
            let s = self@;
            let t = s.insert(k as int, (deadline, waker));
            assert forall|i: int, j: int| 0 <= i < j < t.len() implies (#[trigger] t[i]).0@ <= (
            #[trigger] t[j]).0@ by {
                if k < s.len() && j > k {
                    assert(s[k as int].0@ <= s[j - 1].0@);
                }
                if i < k && j < k {
                    assert(s[i].0@ <= s[j].0@);
                }
                if i > k {
                    assert(s[i - 1].0@ <= s[j - 1].0@);
                }
                if i < k && j > k {
                    assert(s[i].0@ <= s[j - 1].0@);
                }
            }
        }
        self.entries.insert(k, (deadline, waker));
        assert(self@[k as int] == (deadline, waker));
    }

    /// The number of timers whose points are not after the given one.
    fn due_count(&self, now: Instant) -> (r: usize)
        requires
            self.wf(),
        ensures
            r == due(self@, now),
    {
        let mut k: usize = 0;
        while k < self.entries.len() && self.entries[k].0.reached(now)
            invariant
                k <= self.entries@.len(),
                forall|i: int| 0 <= i < k ==> (#[trigger] self.entries@[i]).0@ <= now@,
            decreases self.entries@.len() - k,
        {
            k = k + 1;
        }
        proof {
            due_is_split(self@, now, k as int);
        }
        k
    }

    /// The point of the earliest timer.
    pub fn next_timer_deadline(&self) -> (r: Option<Instant>)
        ensures
            r == (if self@.len() > 0 {
                Some(self@[0].0)
            } else {
                None
            }),
    {
        if self.entries.len() > 0 {
            Some(self.entries[0].0)
        } else {
            None
        }
    }

    /// Takes the timers whose points have been reached, in order.
    pub fn fire_timers(&mut self, now: Instant) -> (r: Vec<W>)
        requires
            old(self).wf(),
        ensures
            final(self).wf(),
            r@ == ringing(old(self)@.take(due(old(self)@, now))),
            final(self)@ == old(self)@.skip(due(old(self)@, now)),
            r@.len() + final(self)@.len() == old(self)@.len(),
            forall|i: int|
                #![trigger r@[i]]
                0 <= i < r@.len() ==> r@[i] == old(self)@[i].1 && old(self)@[i].0@ <= now@,
            forall|i: int|
                0 <= i < final(self)@.len() ==> (#[trigger] final(self)@[i]).0@ > now@,
    {
        let k: usize = self.due_count(now);
        proof {
            due_bounds(self@, now);
        }
        let ghost before = self.entries@;
        let rest = self.entries.split_off(k);
        let ghost fired = self.entries@;
        let mut out: Vec<W> = Vec::new();
        let mut i: usize = 0;
        assert(fired =~= before.take(k as int));
        assert(fired.skip(0) =~= fired);
        while i < k
            invariant
                i <= k,
                k == fired.len(),
                self.entries@ == fired.skip(i as int),
                out@.len() == i,
                forall|j: int| 0 <= j < i ==> #[trigger] out@[j] == fired[j].1,
            decreases k - i,
        {
            let (_, w) = self.entries.remove(0);
            assert(fired.skip(i as int).remove(0) =~= fired.skip(i + 1));
            out.push(w);
            i = i + 1;
        }
        self.entries = rest;
        proof {
            assert(out@ =~= ringing(fired));
            timers_ring_on_time(before, now);
            assert(rest@ =~= before.skip(k as int));
        }
        out
    }
}

/// A timer rings when its point has been reached, neither earlier nor later, and those that ring
/// together ring in the order of their points.
pub proof fn timers_ring_on_time<W>(s: Seq<(Instant, W)>, now: Instant)
    requires
        in_order(s),
    ensures
        0 <= due(s, now) <= s.len(),
        forall|i: int| 0 <= i < s.len() ==> ((#[trigger] s[i]).0@ <= now@ <==> i < due(s, now)),
        in_order(s.take(due(s, now))),
        in_order(s.skip(due(s, now))),
{
    due_bounds(s, now);
    let d = due(s, now);
    assert forall|i: int| 0 <= i < s.len() implies ((#[trigger] s[i]).0@ <= now@ <==> i < d) by {
        if i > d {
            assert(s[d].0@ <= s[i].0@);
        }
    }
}

/// Timers for the same point ring in the order in which they were set.
pub proof fn timers_ring_in_the_order_of_setting<W>(
    s: Seq<(Instant, W)>,
    deadline: Instant,
    first: W,
    second: W,
)
    requires
        in_order(s),
    ensures
        ({
            let k = due(s, deadline);
            let one = s.insert(k, (deadline, first));
            &&& 0 <= k <= s.len()
            &&& due(one, deadline) == k + 1
            &&& one.insert(k + 1, (deadline, second))[k] == (deadline, first)
            &&& one.insert(k + 1, (deadline, second))[k + 1] == (deadline, second)
        }),
{
    due_bounds(s, deadline);
    let k = due(s, deadline);
    let one = s.insert(k, (deadline, first));
    assert forall|i: int| 0 <= i < k + 1 implies (#[trigger] one[i]).0@ <= deadline@ by {
        if i < k {
            assert(one[i] == s[i]);
        }
    }
    if k + 1 < one.len() {
        assert(one[k + 1] == s[k]);
    }
    due_is_split(one, deadline, k + 1);
}

/// The tasks of one thread, and what the event loop does next.
pub struct Scheduler<W> {
    run_queue: VecDeque<u64>,
    tasks: HashMap<u64, RawTask>,
    next_id: u64,
    timers: Timers<W>,
    root_woken: bool,
    tick_budget: usize,
    epoch_interval: Duration,
    last_epoch_rotation: Instant,
}

/// The run queue and the tasks.
#[verifier::ext_equal]
pub struct TaskView {
    pub queue: Seq<u64>,
    pub tasks: Map<u64, RawTask>,
}

impl TaskView {
    /// Validity: the tasks in the run queue are those that are marked so, each once.
    pub open spec fn wf(self) -> bool {
        &&& self.queue.no_duplicates()
        &&& forall|i: int|
            0 <= i < self.queue.len() ==> self.tasks.dom().contains(#[trigger] self.queue[i])
                && self.tasks[self.queue[i]].enqueued
        &&& forall|id: u64| #[trigger]
            self.tasks.dom().contains(id) && self.tasks[id].enqueued ==> self.queue.contains(id)
    }

    /// After a task was woken: it is at the end of the run queue, unless it was in it.
    pub open spec fn woken(self, id: u64) -> TaskView {
        if self.tasks[id].enqueued {
            self
        } else {
            TaskView {
                queue: self.queue.push(id),
                tasks: self.tasks.insert(id, RawTask { enqueued: true, ..self.tasks[id] }),
            }
        }
    }

    /// After the first task was taken out of the run queue.
    pub open spec fn taken(self) -> TaskView {
        TaskView {
            queue: self.queue.skip(1),
            tasks: self.tasks.insert(
                self.queue[0],
                RawTask { enqueued: false, ..self.tasks[self.queue[0]] },
            ),
        }
    }
}

impl<W> Scheduler<W> {
    pub closed spec fn view(&self) -> TaskView {
        TaskView { queue: self.run_queue@, tasks: self.tasks@ }
    }

    pub closed spec fn next(self) -> u64 {
        self.next_id
    }

    pub closed spec fn clock(self) -> Seq<(Instant, W)> {
        self.timers@
    }

    /// Whether the root future was woken.
    pub closed spec fn root(self) -> bool {
        self.root_woken
    }

    pub closed spec fn budget(self) -> usize {
        self.tick_budget
    }

    pub closed spec fn interval(self) -> Duration {
        self.epoch_interval
    }

    pub closed spec fn last_rotation(self) -> Instant {
        self.last_epoch_rotation
    }

    /// Validity of the run queue, the timers, and the number for the next task.
    pub open spec fn wf(self) -> bool {
        &&& self@.wf()
        &&& in_order(self.clock())
        &&& forall|id: u64| #[trigger] self@.tasks.dom().contains(id) ==> id < self.next()
    }

    /// Whether another has the same settings, timers and flags.
    pub open spec fn same_but_tasks(self, other: Self) -> bool {
        &&& self.clock() == other.clock()
        &&& self.root() == other.root()
        &&& self.budget() == other.budget()
        &&& self.interval() == other.interval()
        &&& self.last_rotation() == other.last_rotation()
    }

    /// The scheduler without tasks.
    pub fn new<P>(config: &ExecutorConfig<P>, now: Instant) -> (r: Self)
        ensures
            r.wf(),
            r@.queue == Seq::<u64>::empty(),
            r@.tasks == Map::<u64, RawTask>::empty(),
            r.next() == 0,
            r.clock() == Seq::<(Instant, W)>::empty(),
            !r.root(),
            r.budget() == config.tick_budget,
            r.interval() == config.epoch_interval,
            r.last_rotation() == now,
    {
        Self {
            run_queue: VecDeque::new(),
            tasks: HashMap::new(),
            next_id: 0,
            timers: Timers::new(),
            root_woken: false,
            tick_budget: config.tick_budget,
            epoch_interval: config.epoch_interval,
            last_epoch_rotation: now,
        }
    }

    /// A new task, at the end of the run queue.
    pub fn spawn(&mut self) -> (r: u64)
        requires
            old(self).wf(),
            old(self).next() < u64::MAX,
        ensures
            final(self).wf(),
            final(self).same_but_tasks(*old(self)),
            r == old(self).next(),
            final(self).next() == old(self).next() + 1,
            final(self)@.queue == old(self)@.queue.push(r),
            final(self)@.tasks == old(self)@.tasks.insert(
                r,
                RawTask { enqueued: true, completed: false, cancelled: false },
            ),
    {
        broadcast use vstd::std_specs::hash::group_hash_axioms;

        let id: u64 = self.next_id;
        self.next_id = id + 1;
        self.tasks.insert(id, RawTask::new());
        self.run_queue.push_back(id);
        proof {
            let before = old(self)@;
            let after = self@;
            assert forall|x: u64| #[trigger]
                after.tasks.dom().contains(x)
                    && after.tasks[x].enqueued implies after.queue.contains(x) by {
                if x == id {
                    assert(after.queue[before.queue.len() as int] == id);
                } else {
                    assert(before.tasks.dom().contains(x));
                    assert(before.queue.contains(x));
                    let i = choose|i: int| 0 <= i < before.queue.len() && before.queue[i] == x;
                    assert(after.queue[i] == x);
                }
            }
            assert forall|x: u64| #[trigger] after.tasks.dom().contains(x) implies x
                < self.next_id by {
                assert(x == id || before.tasks.dom().contains(x));
            }
            assert forall|i: int| 0 <= i < after.queue.len() implies after.tasks.dom().contains(
                #[trigger] after.queue[i],
            ) && after.tasks[after.queue[i]].enqueued && (i < before.queue.len() ==> after.queue[i]
                != id) by {
                if i < before.queue.len() {
                    assert(before.tasks.dom().contains(before.queue[i]));
                }
            }
        }
        id
    }

    /// A task is woken: it goes to the end of the run queue, unless it is in it.
    pub fn wake(&mut self, id: u64)
        requires
            old(self).wf(),
            old(self)@.tasks.dom().contains(id),
        ensures
            final(self).wf(),
            final(self).same_but_tasks(*old(self)),
            final(self).next() == old(self).next(),
            final(self)@ == old(self)@.woken(id),
    {
        broadcast use vstd::std_specs::hash::group_hash_axioms;

        if let Some(t) = self.tasks.get(&id) {
            let mut task: RawTask = *t;
            if task.wake() {
                self.tasks.insert(id, task);
                self.run_queue.push_back(id);
                proof {
                    let before = old(self)@;
                    let after = self@;
                    assert forall|x: u64| #[trigger]
                        after.tasks.dom().contains(x)
                            && after.tasks[x].enqueued implies after.queue.contains(x) by {
                        if x == id {
                            assert(after.queue[before.queue.len() as int] == id);
                        } else {
                            assert(before.tasks.dom().contains(x));
                            assert(before.queue.contains(x));
                            let i = choose|i: int|
                                0 <= i < before.queue.len() && before.queue[i] == x;
                            assert(after.queue[i] == x);
                        }
                    }
                }
            }
        }
    }

    /// The next task of this tick, out of the run queue, after `polled` tasks were taken in it;
    /// none if that is the budget, or the queue is empty.
    pub fn next_task(&mut self, polled: usize) -> (r: Option<u64>)
        requires
            old(self).wf(),
        ensures
            final(self).wf(),
            final(self).same_but_tasks(*old(self)),
            final(self).next() == old(self).next(),
            if polled >= old(self).budget() || old(self)@.queue.len() == 0 {
                r is None && final(self)@ == old(self)@
            } else {
                r == Some(old(self)@.queue[0]) && final(self)@ == old(self)@.taken()
            },
    {
        broadcast use vstd::std_specs::hash::group_hash_axioms;

        if polled >= self.tick_budget {
            return None;
        }
        match self.run_queue.pop_front() {
            Some(id) => {
                if let Some(t) = self.tasks.get(&id) {
                    let mut task: RawTask = *t;
                    task.set_dequeued();
                    self.tasks.insert(id, task);
                }
                proof {
                    let before = old(self)@;
                    let after = self@;
                    assert(before.tasks.dom().contains(before.queue[0]));
                    assert(after =~= before.taken());
                    assert forall|i: int| 0 <= i < after.queue.len() implies after.tasks.dom().contains(
                        #[trigger] after.queue[i],
                    ) && after.tasks[after.queue[i]].enqueued by {
                        assert(after.queue[i] == before.queue[i + 1]);
                    }
                    assert forall|x: u64| #[trigger]
                        after.tasks.dom().contains(x)
                            && after.tasks[x].enqueued implies after.queue.contains(x) by {
                        assert(before.queue.contains(x));
                        let i = choose|i: int| 0 <= i < before.queue.len() && before.queue[i] == x;
                        assert(i != 0);
                        assert(after.queue[i - 1] == x);
                    }
                }
                Some(id)
            },
            None => None,
        }
    }

    /// Whether a task still runs, so that it is to be polled.
    pub fn is_live(&self, id: u64) -> (r: bool)
        ensures
            r == (self@.tasks.dom().contains(id) && self@.tasks[id].live()),
            r <==> self@.tasks.dom().contains(id) && !self@.tasks[id].completed
                && !self@.tasks[id].cancelled,
    {
        broadcast use vstd::std_specs::hash::group_hash_axioms;

        match self.tasks.get(&id) {
            Some(t) => t.is_live(),
            None => false,
        }
    }

    /// A task that still runs was polled.
    pub fn polled(&mut self, id: u64, ready: bool)
        requires
            old(self).wf(),
            old(self)@.tasks.dom().contains(id),
        ensures
            final(self).wf(),
            final(self).same_but_tasks(*old(self)),
            final(self).next() == old(self).next(),
            final(self)@.queue == old(self)@.queue,
            final(self)@.tasks == old(self)@.tasks.insert(
                id,
                RawTask {
                    completed: old(self)@.tasks[id].completed || (old(self)@.tasks[id].live()
                        && ready),
                    ..old(self)@.tasks[id]
                },
            ),
    {
        broadcast use vstd::std_specs::hash::group_hash_axioms;

        if let Some(t) = self.tasks.get(&id) {
            let mut task: RawTask = *t;
            task.polled(ready);
            self.tasks.insert(id, task);
        }
    }

    /// A task is called off.
    pub fn cancel(&mut self, id: u64)
        requires
            old(self).wf(),
            old(self)@.tasks.dom().contains(id),
        ensures
            final(self).wf(),
            final(self).same_but_tasks(*old(self)),
            final(self).next() == old(self).next(),
            final(self)@.queue == old(self)@.queue,
            final(self)@.tasks == old(self)@.tasks.insert(
                id,
                RawTask { cancelled: true, ..old(self)@.tasks[id] },
            ),
    {
        broadcast use vstd::std_specs::hash::group_hash_axioms;

        if let Some(t) = self.tasks.get(&id) {
            let task: RawTask = RawTask {
                enqueued: t.enqueued,
                completed: t.completed,
                cancelled: true,
            };
            self.tasks.insert(id, task);
        }
    }

    /// Forgets a task that is not in the run queue and that nothing can wake any more.
    pub fn release(&mut self, id: u64)
        requires
            old(self).wf(),
            !old(self)@.queue.contains(id),
        ensures
            final(self).wf(),
            final(self).same_but_tasks(*old(self)),
            final(self).next() == old(self).next(),
            final(self)@.queue == old(self)@.queue,
            final(self)@.tasks == old(self)@.tasks.remove(id),
    {
        broadcast use vstd::std_specs::hash::group_hash_axioms;

        self.tasks.remove(&id);
        assert(self@.tasks =~= old(self)@.tasks.remove(id));
    }

    /// Whether a task is in the run queue.
    pub fn is_enqueued(&self, id: u64) -> (r: bool)
        requires
            self.wf(),
        ensures
            r == self@.queue.contains(id),
    {
        broadcast use vstd::std_specs::hash::group_hash_axioms;

        proof {
            if self@.queue.contains(id) {
                let i = choose|i: int| 0 <= i < self@.queue.len() && self@.queue[i] == id;
                assert(self@.tasks.dom().contains(self@.queue[i]));
            }
            if self@.tasks.dom().contains(id) && self@.tasks[id].enqueued {
                assert(self@.queue.contains(id));
            }
        }
        match self.tasks.get(&id) {
            Some(t) => t.enqueued,
            None => false,
        }
    }

    /// Whether the scheduler knows the task.
    pub fn knows(&self, id: u64) -> (r: bool)
        ensures
            r == self@.tasks.dom().contains(id),
    {
        broadcast use vstd::std_specs::hash::group_hash_axioms;

        self.tasks.contains_key(&id)
    }

    /// The root future was woken, or is about to be polled.
    pub fn set_root_woken(&mut self, woken: bool)
        requires
            old(self).wf(),
        ensures
            final(self).wf(),
            final(self)@ == old(self)@,
            final(self).next() == old(self).next(),
            final(self).root() == woken,
            final(self).clock() == old(self).clock(),
            final(self).budget() == old(self).budget(),
            final(self).interval() == old(self).interval(),
            final(self).last_rotation() == old(self).last_rotation(),
    {
        self.root_woken = woken;
    }

    /// How long to wait for input and output: not at all while there is something to run; else
    /// until the next timer, or a millisecond without one.
    pub fn poll_timeout(&self, now: Instant) -> (r: Duration)
        requires
            self.wf(),
        ensures
            r@ == (if self@.queue.len() > 0 || self.root() {
                0
            } else if self.clock().len() > 0 {
                elapsed(now@, self.clock()[0].0@)
            } else {
                1_000_000
            }),
    {
        if self.run_queue.len() > 0 || self.root_woken {
            Duration::zero()
        } else {
            match self.timers.next_timer_deadline() {
                Some(deadline) => deadline.saturating_duration_since(now),
                None => Duration::from_millis(1),
            }
        }
    }

    /// Sets a timer.
    pub fn register_timer(&mut self, deadline: Instant, waker: W)
        requires
            old(self).wf(),
        ensures
            final(self).wf(),
            final(self)@ == old(self)@,
            final(self).next() == old(self).next(),
            final(self).root() == old(self).root(),
            final(self).budget() == old(self).budget(),
            final(self).interval() == old(self).interval(),
            final(self).last_rotation() == old(self).last_rotation(),
            final(self).clock() == old(self).clock().insert(
                due(old(self).clock(), deadline),
                (deadline, waker),
            ),
    {
        self.timers.register_timer(deadline, waker);
    }

    /// Takes the timers whose points have been reached, in order.
    pub fn fire_timers(&mut self, now: Instant) -> (r: Vec<W>)
        requires
            old(self).wf(),
        ensures
            final(self).wf(),
            final(self)@ == old(self)@,
            final(self).next() == old(self).next(),
            final(self).root() == old(self).root(),
            final(self).budget() == old(self).budget(),
            final(self).interval() == old(self).interval(),
            final(self).last_rotation() == old(self).last_rotation(),
            r@ == ringing(old(self).clock().take(due(old(self).clock(), now))),
            final(self).clock() == old(self).clock().skip(due(old(self).clock(), now)),
    {
        self.timers.fire_timers(now)
    }

    /// Whether the buffers are to change at `now`: when the interval has passed since they last
    /// did. If so, they did now.
    pub fn rotate_epoch(&mut self, now: Instant) -> (r: bool)
        requires
            old(self).wf(),
        ensures
            final(self).wf(),
            final(self)@ == old(self)@,
            final(self).next() == old(self).next(),
            final(self).root() == old(self).root(),
            final(self).budget() == old(self).budget(),
            final(self).interval() == old(self).interval(),
            final(self).clock() == old(self).clock(),
            r == (elapsed(old(self).last_rotation()@, now@) >= old(self).interval()@),
            final(self).last_rotation() == (if r {
                now
            } else {
                old(self).last_rotation()
            }),
    {
        let since = now.saturating_duration_since(self.last_epoch_rotation);
        if !since.less_than(self.epoch_interval) {
            self.last_epoch_rotation = now;
            true
        } else {
            false
        }
    }
}

/// However often a task is woken before it runs, it is in the run queue once.
pub proof fn waking_twice_is_waking_once(v: TaskView, id: u64)
    requires
        v.wf(),
        v.tasks.dom().contains(id),
    ensures
        v.woken(id).woken(id) == v.woken(id),
        v.woken(id).wf(),
        v.woken(id).queue.contains(id),
        v.woken(id).queue.no_duplicates(),
{
    let w = v.woken(id);
    if !v.tasks[id].enqueued {
        assert(w.queue[v.queue.len() as int] == id);
        assert forall|x: u64| #[trigger]
            w.tasks.dom().contains(x) && w.tasks[x].enqueued implies w.queue.contains(x) by {
            if x != id {
                assert(v.tasks.dom().contains(x));
                assert(v.queue.contains(x));
                let i = choose|i: int| 0 <= i < v.queue.len() && v.queue[i] == x;
                assert(w.queue[i] == x);
            }
        }
    }
}

/// The run queue after that many takes.
pub open spec fn taken_times(v: TaskView, n: nat) -> TaskView
    decreases n,
{
    if n == 0 {
        v
    } else {
        taken_times(v.taken(), (n - 1) as nat)
    }
}

/// Tasks run in the order in which they came into the run queue: after as many takes as there
/// are tasks before it, a task is next.
pub proof fn tasks_run_in_order(v: TaskView, k: nat)
    requires
        k < v.queue.len(),
    ensures
        taken_times(v, k).queue == v.queue.skip(k as int),
        taken_times(v, k).queue[0] == v.queue[k as int],
    decreases k,
{
    if k == 0 {
        assert(v.queue.skip(0) =~= v.queue);
    } else {
        let t = v.taken();
        tasks_run_in_order(t, (k - 1) as nat);
        assert(v.queue.skip(1).skip(k - 1) =~= v.queue.skip(k as int));
    }
}

/// What is woken meanwhile goes behind: it does not delay the tasks that were in the run queue.
pub proof fn waking_does_not_overtake(v: TaskView, id: u64)
    ensures
        v.queue.is_prefix_of(v.woken(id).queue),
{
}

/// What rings is who waits, in the timers' order.
pub proof fn ringing_keeps_the_order<W>(s: Seq<(Instant, W)>, i: int)
    requires
        0 <= i < s.len(),
    ensures
        ringing(s).len() == s.len(),
        ringing(s)[i] == s[i].1,
{
}

/// No timer is lost and none rings twice: those that ring and those that are left, one behind the
/// other, are those that were set.
pub proof fn timers_ring_once<W>(s: Seq<(Instant, W)>, now: Instant)
    requires
        in_order(s),
    ensures
        s.take(due(s, now)) + s.skip(due(s, now)) == s,
        due(s.skip(due(s, now)), now) == 0,
        ringing(s.take(due(s, now))).len() == due(s, now),
{
    timers_ring_on_time(s, now);
    let rest = s.skip(due(s, now));
    assert(s.take(due(s, now)) + rest =~= s);
    if rest.len() > 0 {
        assert(rest[0] == s[due(s, now)]);
    }
}

/// Waking a task puts it into the run queue once, behind the others, and changes nothing else of
/// it or of any other task.
pub proof fn waking_enqueues(v: TaskView, id: u64, other: u64)
    requires
        v.wf(),
        v.tasks.dom().contains(id),
        other != id,
    ensures
        v.tasks[id].enqueued ==> v.woken(id) == v,
        !v.tasks[id].enqueued ==> v.woken(id).queue == v.queue.push(id),
        v.woken(id).tasks[id].enqueued,
        v.woken(id).tasks[id].completed == v.tasks[id].completed,
        v.woken(id).tasks[id].cancelled == v.tasks[id].cancelled,
        v.woken(id).tasks.dom() == v.tasks.dom(),
        v.woken(id).tasks[other] == v.tasks[other],
{
    assert(v.woken(id).tasks.dom() =~= v.tasks.dom());
}

/// A task that is taken out of the run queue can be woken again: it then goes behind the others.
/// Nothing else of it or of any other task changes.
pub proof fn taken_tasks_can_be_woken(v: TaskView, other: u64)
    requires
        v.wf(),
        v.queue.len() > 0,
        other != v.queue[0],
    ensures
        v.taken().wf(),
        !v.taken().queue.contains(v.queue[0]),
        !v.taken().tasks[v.queue[0]].enqueued,
        v.taken().tasks[v.queue[0]].completed == v.tasks[v.queue[0]].completed,
        v.taken().tasks[v.queue[0]].cancelled == v.tasks[v.queue[0]].cancelled,
        v.taken().tasks.dom() == v.tasks.dom(),
        v.taken().tasks[other] == v.tasks[other],
        v.taken().woken(v.queue[0]).queue == v.queue.skip(1).push(v.queue[0]),
{
    let t = v.taken();
    let first = v.queue[0];
    assert(v.tasks.dom().contains(v.queue[0]));
    assert(t.tasks.dom() =~= v.tasks.dom());
    assert forall|i: int| 0 <= i < t.queue.len() implies t.tasks.dom().contains(
        #[trigger] t.queue[i],
    ) && t.tasks[t.queue[i]].enqueued && t.queue[i] != first by {
        assert(t.queue[i] == v.queue[i + 1]);
    }
    assert forall|x: u64| #[trigger]
        t.tasks.dom().contains(x) && t.tasks[x].enqueued implies t.queue.contains(x) by {
        assert(v.queue.contains(x));
        let i = choose|i: int| 0 <= i < v.queue.len() && v.queue[i] == x;
        assert(t.queue[i - 1] == x);
    }
}

/// A task that was spawned is known, runs and waits its turn behind the others; called off, it
/// runs no more.
pub proof fn spawned_tasks_run_until_called_off<W>(
    before: Scheduler<W>,
    spawned: Scheduler<W>,
    id: u64,
    known: bool,
    live: bool,
    waits: bool,
    off: Scheduler<W>,
    over: bool,
)
    requires
        exists|m: &mut Scheduler<W>|
            *m == before && *final(m) == spawned && #[trigger] call_ensures(
                Scheduler::<W>::spawn,
                (m,),
                id,
            ),
        spawned.wf(),
        call_ensures(Scheduler::<W>::knows, (&spawned, id), known),
        call_ensures(Scheduler::<W>::is_live, (&spawned, id), live),
        call_ensures(Scheduler::<W>::is_enqueued, (&spawned, id), waits),
        exists|m: &mut Scheduler<W>|
            *m == spawned && *final(m) == off && #[trigger] call_ensures(
                Scheduler::<W>::cancel,
                (m, id),
                (),
            ),
        call_ensures(Scheduler::<W>::is_live, (&off, id), over),
    ensures
        known,
        live,
        waits,
        !over,
        spawned@.queue.last() == id,
{
    assert(spawned@.queue[before@.queue.len() as int] == id);
}

/// A task that was polled to its end runs no more, and one that was not runs on as it did.
pub proof fn polled_tasks_end_when_ready<W>(
    before: Scheduler<W>,
    id: u64,
    ready: bool,
    after: Scheduler<W>,
    was: bool,
    still: bool,
)
    requires
        before@.tasks.dom().contains(id),
        exists|m: &mut Scheduler<W>|
            *m == before && *final(m) == after && #[trigger] call_ensures(
                Scheduler::<W>::polled,
                (m, id, ready),
                (),
            ),
        call_ensures(Scheduler::<W>::is_live, (&before, id), was),
        call_ensures(Scheduler::<W>::is_live, (&after, id), still),
    ensures
        still <==> was && !ready,
        after@.queue == before@.queue,
{
}

/// A task that was woken waits its turn, and the one whose turn comes is the first that waits; it
/// waits no more then. With no task left, or the budget spent, none comes.
pub proof fn woken_tasks_get_their_turn<W>(
    before: Scheduler<W>,
    id: u64,
    woken: Scheduler<W>,
    waits: bool,
    polled: usize,
    after: Scheduler<W>,
    r: Option<u64>,
    still: bool,
)
    requires
        before.wf(),
        before@.tasks.dom().contains(id),
        woken.wf(),
        after.wf(),
        exists|m: &mut Scheduler<W>|
            *m == before && *final(m) == woken && #[trigger] call_ensures(
                Scheduler::<W>::wake,
                (m, id),
                (),
            ),
        call_ensures(Scheduler::<W>::is_enqueued, (&woken, id), waits),
        exists|m: &mut Scheduler<W>|
            *m == woken && *final(m) == after && #[trigger] call_ensures(
                Scheduler::<W>::next_task,
                (m, polled),
                r,
            ),
        call_ensures(Scheduler::<W>::is_enqueued, (&after, id), still),
    ensures
        waits,
        r is None <==> polled >= woken.budget(),
        r == Some(id) ==> !still,
        r is Some ==> r->0 == woken@.queue[0],
        r is Some && r->0 != id ==> still,
{
    waking_twice_is_waking_once(before@, id);
    let q = woken@.queue;
    let k = choose|k: int| 0 <= k < q.len() && q[k] == id;
    if r is Some {
        assert(after@.queue == q.skip(1));
        if q[0] == id {
            if after@.queue.contains(id) {
                let i = choose|i: int| 0 <= i < after@.queue.len() && after@.queue[i] == id;
                assert(q[i + 1] == id);
            }
        } else {
            assert(after@.queue[k - 1] == id);
        }
    }
}

/// A task that was let go of is not known any more, and the others are.
pub proof fn released_tasks_are_unknown<W>(
    before: Scheduler<W>,
    id: u64,
    after: Scheduler<W>,
    known: bool,
    other: u64,
    was: bool,
    still: bool,
)
    requires
        other != id,
        exists|m: &mut Scheduler<W>|
            *m == before && *final(m) == after && #[trigger] call_ensures(
                Scheduler::<W>::release,
                (m, id),
                (),
            ),
        call_ensures(Scheduler::<W>::knows, (&after, id), known),
        call_ensures(Scheduler::<W>::knows, (&before, other), was),
        call_ensures(Scheduler::<W>::knows, (&after, other), still),
    ensures
        !known,
        still == was,
{
}

/// The loop does not wait while there is something to run, waits no longer than until the next
/// timer, and with nothing to wait for looks again after a millisecond.
pub proof fn waiting_ends_in_time<W>(
    s: Scheduler<W>,
    now: Instant,
    r: Duration,
)
    requires
        call_ensures(Scheduler::<W>::poll_timeout, (&s, now), r),
    ensures
        s@.queue.len() > 0 || s.root() ==> r@ == 0,
        s@.queue.len() == 0 && !s.root() && s.clock().len() > 0 && s.clock()[0].0@ >= now@ ==> now@ + r@
            == s.clock()[0].0@,
        s@.queue.len() == 0 && !s.root() && s.clock().len() > 0 && s.clock()[0].0@ <= now@ ==> r@ == 0,
        s@.queue.len() == 0 && !s.root() && s.clock().len() == 0 ==> r@ == 1_000_000,
{
}

/// The buffers change when the interval has passed since they last did, and then not again before
/// it has passed once more.
pub proof fn buffers_change_once_in_an_interval<W>(
    before: Scheduler<W>,
    now: Instant,
    between: Scheduler<W>,
    first: bool,
    later: Instant,
    after: Scheduler<W>,
    second: bool,
)
    requires
        before.interval()@ > 0,
        now@ <= later@,
        exists|m: &mut Scheduler<W>|
            *m == before && *final(m) == between && #[trigger] call_ensures(
                Scheduler::<W>::rotate_epoch,
                (m, now),
                first,
            ),
        exists|m: &mut Scheduler<W>|
            *m == between && *final(m) == after && #[trigger] call_ensures(
                Scheduler::<W>::rotate_epoch,
                (m, later),
                second,
            ),
    ensures
        first <==> now@ >= before.last_rotation()@ + before.interval()@,
        first ==> (second <==> later@ >= now@ + before.interval()@),
        !first ==> (second <==> later@ >= before.last_rotation()@ + before.interval()@),
{
}

/// A timer that was set rings once its point has been reached, and not before; until then it is
/// among those that are set, and the next point is no later than its own.
pub proof fn set_timers_ring_on_time<W>(
    before: Timers<W>,
    deadline: Instant,
    waker: W,
    set: Timers<W>,
    next: Option<Instant>,
    now: Instant,
    after: Timers<W>,
    rung: Vec<W>,
)
    requires
        set.wf(),
        exists|m: &mut Timers<W>|
            *m == before && *final(m) == set && #[trigger] call_ensures(
                Timers::<W>::register_timer,
                (m, deadline, waker),
                (),
            ),
        call_ensures(Timers::<W>::next_timer_deadline, (&set,), next),
        exists|m: &mut Timers<W>|
            *m == set && *final(m) == after && #[trigger] call_ensures(
                Timers::<W>::fire_timers,
                (m, now),
                rung,
            ),
    ensures
        next is Some,
        next->0@ <= deadline@,
        now@ >= deadline@ ==> rung@.contains(waker),
        now@ < deadline@ ==> after@.contains((deadline, waker)),
        rung@.len() + after@.len() == set@.len(),
{
    let s = set@;
    let k = choose|k: int| 0 <= k < s.len() && s[k] == (deadline, waker);
    timers_ring_on_time(s, now);
    let d = due(s, now);
    if k > 0 {
        assert(s[0].0@ <= s[k].0@);
    }
    if k < d {
        assert(s.take(d)[k] == s[k]);
        ringing_keeps_the_order(s.take(d), k);
        assert(rung@[k] == waker);
    } else {
        assert(after@[k - d] == s[k]);
    }
}

/// A timer that was set with a scheduler rings once its point has been reached, and not before,
/// and the tasks stay as they are.
pub proof fn scheduled_timers_ring_on_time<W>(
    before: Scheduler<W>,
    deadline: Instant,
    waker: W,
    set: Scheduler<W>,
    now: Instant,
    after: Scheduler<W>,
    rung: Vec<W>,
)
    requires
        set.wf(),
        exists|m: &mut Scheduler<W>|
            *m == before && *final(m) == set && #[trigger] call_ensures(
                Scheduler::<W>::register_timer,
                (m, deadline, waker),
                (),
            ),
        exists|m: &mut Scheduler<W>|
            *m == set && *final(m) == after && #[trigger] call_ensures(
                Scheduler::<W>::fire_timers,
                (m, now),
                rung,
            ),
        in_order(before.clock()),
    ensures
        now@ >= deadline@ ==> rung@.contains(waker),
        now@ < deadline@ ==> after.clock().contains((deadline, waker)),
        after@ == before@,
        rung@.len() + after.clock().len() == before.clock().len() + 1,
{
    let s = set.clock();
    timers_ring_on_time(before.clock(), deadline);
    let k = due(before.clock(), deadline);
    assert(s[k] == (deadline, waker));
    timers_ring_on_time(s, now);
    let d = due(s, now);
    if k < d {
        assert(s.take(d)[k] == s[k]);
        ringing_keeps_the_order(s.take(d), k);
        assert(rung@[k] == waker);
    } else {
        assert(after.clock()[k - d] == s[k]);
    }
}

/// Whatever happens to tasks, the settings and the timers of a scheduler stay.
pub proof fn settings_stay<W>(
    before: Scheduler<W>,
    id: u64,
    a: Scheduler<W>,
    b: Scheduler<W>,
    c: Scheduler<W>,
    r: u64,
    polled: usize,
    d: Scheduler<W>,
    q: Option<u64>,
)
    requires
        exists|m: &mut Scheduler<W>|
            *m == before && *final(m) == a && #[trigger] call_ensures(
                Scheduler::<W>::wake,
                (m, id),
                (),
            ),
        exists|m: &mut Scheduler<W>|
            *m == before && *final(m) == b && #[trigger] call_ensures(
                Scheduler::<W>::cancel,
                (m, id),
                (),
            ),
        exists|m: &mut Scheduler<W>|
            *m == before && *final(m) == c && #[trigger] call_ensures(
                Scheduler::<W>::spawn,
                (m,),
                r,
            ),
        exists|m: &mut Scheduler<W>|
            *m == before && *final(m) == d && #[trigger] call_ensures(
                Scheduler::<W>::next_task,
                (m, polled),
                q,
            ),
    ensures
        a.budget() == before.budget() && a.interval() == before.interval() && a.clock()
            == before.clock() && a.last_rotation() == before.last_rotation() && a.root() == before.root(),
        b.budget() == before.budget() && b.interval() == before.interval() && b.clock()
            == before.clock() && b.last_rotation() == before.last_rotation() && b.root() == before.root(),
        c.budget() == before.budget() && c.interval() == before.interval() && c.clock()
            == before.clock() && c.last_rotation() == before.last_rotation() && c.root() == before.root(),
        d.budget() == before.budget() && d.interval() == before.interval() && d.clock()
            == before.clock() && d.last_rotation() == before.last_rotation() && d.root() == before.root(),
{
}

/// Where nothing else is said, input and output get a turn after as many as 128 tasks, and the
/// buffers change ten times a second.
pub proof fn executors_have_their_settings<P, W>(
    c: ExecutorConfig<P>,
    now: Instant,
    s: Scheduler<W>,
)
    requires
        call_ensures(<ExecutorConfig<P> as Default>::default, (), c),
        call_ensures(Scheduler::<W>::new::<P>, (&c, now), s),
    ensures
        c.tick_budget == 128,
        c.epoch_interval@ == 100_000_000,
        c.pool_config is None,
        s.budget() == 128,
        s.interval()@ == 100_000_000,
        s.last_rotation() == now,
        s@.queue.len() == 0 && s.clock().len() == 0 && !s.root(),
{
}

} // verus!
